use teart::config::Config;
use teart::errors::{ConfigField, TeartError};
use teart::palette::{get_palette, get_raw_buffer, grid_to_pixels, validate_quantizer_config, Color};

#[test]
fn built_in_palette_has_seventeen_colors() {
    let p = get_palette();
    assert_eq!(p.len(), 17);
    assert_eq!(p[0], Color { red: 1, green: 1, blue: 1 });
    assert_eq!(p[1], Color { red: 172, green: 218, blue: 148 });
    assert_eq!(p[16], Color { red: 219, green: 192, blue: 163 });
}

#[test]
fn quantizer_config_accepts_the_default_setup() {
    assert!(validate_quantizer_config(17, 128, 128).is_ok());
}

#[test]
fn quantizer_config_rejects_tiny_palette() {
    assert_eq!(
        validate_quantizer_config(1, 128, 128),
        Err(TeartError::ConfigurationError(ConfigField::PaletteSize))
    );
    assert_eq!(
        validate_quantizer_config(0, 128, 128),
        Err(TeartError::ConfigurationError(ConfigField::PaletteSize))
    );
}

#[test]
fn quantizer_config_rejects_oversized_palette() {
    assert_eq!(
        validate_quantizer_config(256, 128, 128),
        Err(TeartError::ConfigurationError(ConfigField::PaletteSize))
    );
}

#[test]
fn quantizer_config_rejects_empty_grid() {
    assert_eq!(
        validate_quantizer_config(17, 0, 128),
        Err(TeartError::ConfigurationError(ConfigField::GridDimensions))
    );
    assert_eq!(
        validate_quantizer_config(17, 128, 0),
        Err(TeartError::ConfigurationError(ConfigField::GridDimensions))
    );
}

#[test]
fn quantizer_config_rejects_overflowing_grid() {
    assert_eq!(
        validate_quantizer_config(17, 1 << 17, 1 << 17),
        Err(TeartError::ConfigurationError(ConfigField::GridDimensions))
    );
}

#[test]
fn grid_resolves_to_palette_colors() {
    let palette = vec![
        Color { red: 10, green: 20, blue: 30 },
        Color { red: 40, green: 50, blue: 60 },
    ];
    let pixels = grid_to_pixels(&vec![1, 0, 1, 1], &palette).unwrap();
    assert_eq!(pixels, vec![palette[1], palette[0], palette[1], palette[1]]);
}

#[test]
fn grid_with_unknown_index_is_a_lookup_error() {
    let palette = vec![
        Color { red: 10, green: 20, blue: 30 },
        Color { red: 40, green: 50, blue: 60 },
    ];
    assert_eq!(
        grid_to_pixels(&vec![0, 1, 5, 9], &palette),
        Err(TeartError::PaletteLookupError(5))
    );
}

#[test]
fn raw_buffer_keeps_channel_order() {
    let pixels = vec![
        Color { red: 1, green: 2, blue: 3 },
        Color { red: 200, green: 100, blue: 0 },
    ];
    assert_eq!(get_raw_buffer(&pixels), vec![1, 2, 3, 200, 100, 0]);
}

#[test]
fn config_reads_the_path_argument() {
    let args = vec!["teart".to_string(), "./input/cat.png".to_string()];
    let cfg = Config::new(&args).unwrap();
    assert_eq!(cfg.path, "./input/cat.png");
}

#[test]
fn config_rejects_an_empty_argument_list() {
    let args: Vec<String> = Vec::new();
    assert_eq!(Config::new(&args).err(), Some("Not enough arguments"));
}
