use vstd::prelude::*;

use crate::errors::ConfigField;
use crate::errors::TeartError;

verus! {

/// One palette color as byte channels.  The quantizer itself works on
/// channels normalized to the unit interval; that normalization is the
/// caller's concern, so the model here stays on exact byte values.
#[derive(Clone, Copy, Debug, PartialEq, Eq, Structural)]
pub struct Color {
    pub red: u8,
    pub green: u8,
    pub blue: u8,
}

/// The built-in reference palette: the colors available as bookable
/// marker objects, in their configured order.
pub open spec fn spec_default_palette() -> Seq<Color> {
    seq![
        Color { red: 1, green: 1, blue: 1 },
        Color { red: 172, green: 218, blue: 148 },
        Color { red: 255, green: 254, blue: 231 },
        Color { red: 147, green: 185, blue: 238 },
        Color { red: 216, green: 205, blue: 225 },
        Color { red: 199, green: 235, blue: 224 },
        Color { red: 246, green: 180, blue: 81 },
        Color { red: 249, green: 152, blue: 131 },
        Color { red: 170, green: 216, blue: 232 },
        Color { red: 255, green: 234, blue: 150 },
        Color { red: 250, green: 214, blue: 222 },
        Color { red: 216, green: 231, blue: 53 },
        Color { red: 171, green: 167, blue: 125 },
        Color { red: 200, green: 112, blue: 112 },
        Color { red: 201, green: 255, blue: 146 },
        Color { red: 230, green: 181, blue: 219 },
        Color { red: 219, green: 192, blue: 163 },
    ]
}

/// The built-in reference palette as a vector, passed explicitly into every
/// component that needs it.
pub fn get_palette() -> (p: Vec<Color>)
    ensures
        p@ == spec_default_palette(),
{
    let p: Vec<Color> = vec![
        Color { red: 1, green: 1, blue: 1 },
        Color { red: 172, green: 218, blue: 148 },
        Color { red: 255, green: 254, blue: 231 },
        Color { red: 147, green: 185, blue: 238 },
        Color { red: 216, green: 205, blue: 225 },
        Color { red: 199, green: 235, blue: 224 },
        Color { red: 246, green: 180, blue: 81 },
        Color { red: 249, green: 152, blue: 131 },
        Color { red: 170, green: 216, blue: 232 },
        Color { red: 255, green: 234, blue: 150 },
        Color { red: 250, green: 214, blue: 222 },
        Color { red: 216, green: 231, blue: 53 },
        Color { red: 171, green: 167, blue: 125 },
        Color { red: 200, green: 112, blue: 112 },
        Color { red: 201, green: 255, blue: 146 },
        Color { red: 230, green: 181, blue: 219 },
        Color { red: 219, green: 192, blue: 163 },
    ];
    proof {
        assert(p@ =~= spec_default_palette());
    }
    p
}

/// The quantizer configuration the adapter accepts: a palette with at least
/// two and at most 255 entries (its index must fit one byte), and a
/// non-empty grid whose cell count fits the quantizer's 32-bit size
/// arithmetic.
pub open spec fn spec_quantizer_config_ok(palette_len: int, width: int, height: int) -> bool {
    &&& 2 <= palette_len <= 255
    &&& width >= 1
    &&& height >= 1
    &&& width * height <= u32::MAX
}

/// Validates the quantizer configuration before the algorithm is invoked,
/// failing fast with the rejected field.
pub fn validate_quantizer_config(palette_len: usize, width: u32, height: u32) -> (r: Result<
    (),
    TeartError,
>)
    ensures
        match r {
            Ok(()) => spec_quantizer_config_ok(palette_len as int, width as int, height as int),
            Err(e) => !spec_quantizer_config_ok(palette_len as int, width as int, height as int)
                && if !(2 <= palette_len <= 255) {
                e == TeartError::ConfigurationError(ConfigField::PaletteSize)
            } else {
                e == TeartError::ConfigurationError(ConfigField::GridDimensions)
            },
        },
{
    if palette_len < 2 || palette_len > 255 {
        return Err(TeartError::ConfigurationError(ConfigField::PaletteSize));
    }
    if width < 1 || height < 1 {
        return Err(TeartError::ConfigurationError(ConfigField::GridDimensions));
    }
    if (u32::MAX / width) < height {
        proof {
            assert(width * height > u32::MAX) by (nonlinear_arith)
                requires
                    width >= 1,
                    height >= 1,
                    (u32::MAX as int / width as int) < (height as int),
            ;
        }
        return Err(TeartError::ConfigurationError(ConfigField::GridDimensions));
    }
    proof {
        assert(width * height <= u32::MAX) by (nonlinear_arith)
            requires
                width >= 1,
                height >= 1,
                u32::MAX as int / width as int >= height as int,
        ;
    }
    Ok(())
}

/// The position of the first grid index with no palette entry behind it,
/// scanning cells in row-major order from `i`.
pub open spec fn spec_first_unmapped_from(grid: Seq<u8>, palette_len: int, i: int) -> Option<int>
    decreases grid.len() - i,
{
    if i < 0 || i >= grid.len() {
        None
    } else if grid[i] as int >= palette_len {
        Some(i)
    } else {
        spec_first_unmapped_from(grid, palette_len, i + 1)
    }
}

/// Resolves every cell of a quantized index grid to its palette color.  An
/// index with no palette entry is a `PaletteLookupError`: the quantizer's
/// output would contradict its own palette, which is fatal for the run.
pub fn grid_to_pixels(grid: &Vec<u8>, palette: &Vec<Color>) -> (r: Result<Vec<Color>, TeartError>)
    ensures
        match r {
            Ok(pixels) => spec_first_unmapped_from(grid@, palette@.len() as int, 0) is None
                && pixels@.len() == grid@.len() && forall|i: int|
                0 <= i < grid@.len() ==> #[trigger] pixels@[i] == palette@[grid@[i] as int],
            Err(e) => {
                &&& spec_first_unmapped_from(grid@, palette@.len() as int, 0) matches Some(i)
                    && e == TeartError::PaletteLookupError(grid@[i])
            },
        },
{
    let mut pixels: Vec<Color> = Vec::new();
    let mut i: usize = 0;
    while i < grid.len()
        invariant
            i <= grid@.len(),
            pixels@.len() == i,
            forall|j: int| 0 <= j < i ==> (grid@[j] as int) < palette@.len(),
            forall|j: int| 0 <= j < i ==> #[trigger] pixels@[j] == palette@[grid@[j] as int],
            spec_first_unmapped_from(grid@, palette@.len() as int, 0)
                == spec_first_unmapped_from(grid@, palette@.len() as int, i as int),
        decreases grid@.len() - i,
    {
        let idx = grid[i];
        if (idx as usize) >= palette.len() {
            return Err(TeartError::PaletteLookupError(idx));
        }
        pixels.push(palette[idx as usize]);
        i = i + 1;
    }
    Ok(pixels)
}

/// Flattens resolved pixels into a raw byte buffer, three channel bytes per
/// pixel in red, green, blue order.
pub fn get_raw_buffer(pixels: &Vec<Color>) -> (r: Vec<u8>)
    requires
        pixels@.len() * 3 <= usize::MAX,
    ensures
        r@.len() == pixels@.len() * 3,
        forall|i: int|
            0 <= i < pixels@.len() ==> r@[3 * i] == (#[trigger] pixels@[i]).red && r@[3 * i + 1]
                == pixels@[i].green && r@[3 * i + 2] == pixels@[i].blue,
{
    let mut r: Vec<u8> = Vec::new();
    let mut i: usize = 0;
    while i < pixels.len()
        invariant
            i <= pixels@.len(),
            pixels@.len() * 3 <= usize::MAX,
            r@.len() == i * 3,
            forall|j: int|
                0 <= j < i ==> r@[3 * j] == (#[trigger] pixels@[j]).red && r@[3 * j + 1]
                    == pixels@[j].green && r@[3 * j + 2] == pixels@[j].blue,
        decreases pixels@.len() - i,
    {
        let c = pixels[i];
        r.push(c.red);
        r.push(c.green);
        r.push(c.blue);
        i = i + 1;
    }
    r
}

} // verus!
