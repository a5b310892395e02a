use vstd::prelude::*;

verus! {

/// The configuration field that a `ConfigurationError` rejects.
#[derive(Clone, Copy, Debug, PartialEq, Eq, Structural)]
pub enum ConfigField {
    /// The palette has too few or too many entries for the quantizer.
    PaletteSize,
    /// The grid dimensions are empty, or the index grid does not have
    /// `width * height` cells.
    GridDimensions,
    /// The configured color-object list does not match the palette length.
    ColorObjects,
}

/// Every failure the compiler can surface.  The conversion is all-or-nothing:
/// any of these aborts the run before a document is produced.
#[derive(Clone, Copy, Debug, PartialEq, Eq, Structural)]
pub enum TeartError {
    /// The quantizer or session configuration is invalid; carries the
    /// rejected field.
    ConfigurationError(ConfigField),
    /// A grid cell's palette index has no corresponding configured schedule
    /// object; carries the offending index.
    PaletteRangeError(u8),
    /// The quantizer returned an index with no entry in its own palette;
    /// carries the offending index.
    PaletteLookupError(u8),
    /// A timestamp could not be parsed, or a reservation's computed time
    /// does not fit the fixed-width timestamp format.
    FormatError,
}

} // verus!
