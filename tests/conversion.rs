use ascii_gradient::convert::{image_to_ascii, ConversionError, ImageVector};
use ascii_gradient::gradient::{
    gradient_chars, map_to_gradient, observed_range, uniform_gradient, Scale, GRADIENT,
};
use ascii_gradient::pixel::{read_pixel, reduce_pixels};

fn default_glyphs() -> Vec<char> {
    gradient_chars(GRADIENT)
}

fn convert(data: Vec<u8>, gradient: &str, scaled: bool) -> Result<Vec<char>, ConversionError> {
    let mut image = ImageVector::new();
    image.set(data);
    image.convert_to_ascii(gradient, scaled)
}

#[test]
fn default_gradient_has_69_glyphs() {
    let glyphs = default_glyphs();
    assert_eq!(glyphs.len(), 69);
    assert_eq!(glyphs[0], '$');
    assert_eq!(glyphs[68], ' ');
}

#[test]
fn black_opaque_pixel_maps_to_first_glyph() {
    let data = vec![0u8, 0, 0, 255];
    assert_eq!(read_pixel(&data, 0), 0);
    let out = convert(data, GRADIENT, false).unwrap();
    assert_eq!(out, vec!['$']);
}

#[test]
fn white_opaque_pixel_maps_to_index_fifty() {
    let data = vec![255u8, 255, 255, 255];
    assert_eq!(read_pixel(&data, 0), 191);
    let out = convert(data, GRADIENT, false).unwrap();
    assert_eq!(out, vec![default_glyphs()[50]]);
    assert_eq!(out, vec!['?']);
}

#[test]
fn observed_range_spreads_over_whole_gradient() {
    let glyphs = default_glyphs();
    let brightness = vec![10u8, 200];
    let scale = observed_range(&brightness);
    assert_eq!(scale, Scale { low: 10, high: 200 });
    let out = map_to_gradient(&brightness, &glyphs, true);
    assert_eq!(out, vec![glyphs[0], glyphs[68]]);
}

#[test]
fn transparent_black_pixel_clamps_to_zero() {
    let data = vec![0u8, 0, 0, 0];
    assert_eq!(read_pixel(&data, 0), 0);
    let out = convert(data, GRADIENT, true).unwrap();
    assert_eq!(out, vec!['$']);
}

#[test]
fn full_range_index_formula() {
    let glyphs = default_glyphs();
    for v in 0..=255u8 {
        let expected = glyphs[v as usize * 68 / 255];
        assert_eq!(uniform_gradient(v, Scale::full(), &glyphs), expected);
    }
    assert_eq!(uniform_gradient(100, Scale::full(), &glyphs), 'J');
    assert_eq!(uniform_gradient(255, Scale::full(), &glyphs), ' ');
}

#[test]
fn full_range_is_monotone() {
    let glyphs = default_glyphs();
    let position = |c: char| glyphs.iter().position(|g| *g == c).unwrap();
    let mut last = 0usize;
    for v in 0..=255u8 {
        let p = position(uniform_gradient(v, Scale::full(), &glyphs));
        assert!(p >= last);
        last = p;
    }
}

#[test]
fn flat_image_maps_to_one_glyph() {
    let data = vec![
        30u8, 40, 50, 255, 30, 40, 50, 255, 30, 40, 50, 255, 30, 40, 50, 255,
    ];
    let out = convert(data, GRADIENT, true).unwrap();
    assert_eq!(out, vec!['$'; 4]);
}

#[test]
fn glyph_count_is_pixel_count() {
    let data: Vec<u8> = (0..48u32).map(|i| (i * 5) as u8).collect();
    let out = convert(data.clone(), GRADIENT, true).unwrap();
    assert_eq!(out.len(), data.len() / 4);
    let out = convert(data.clone(), GRADIENT, false).unwrap();
    assert_eq!(out.len(), data.len() / 4);
    assert_eq!(convert(Vec::new(), GRADIENT, true).unwrap(), Vec::<char>::new());
}

#[test]
fn conversion_is_repeatable() {
    let data: Vec<u8> = (0..64u32).map(|i| (i * 37 % 256) as u8).collect();
    let mut image = ImageVector::new();
    image.set(data);
    let first = image.convert_to_ascii(GRADIENT, true);
    let second = image.convert_to_ascii(GRADIENT, true);
    assert_eq!(first, second);
    let first = image.convert_to_ascii(GRADIENT, false);
    let second = image.convert_to_ascii(GRADIENT, false);
    assert_eq!(first, second);
}

#[test]
fn pixel_brightness_values() {
    let data = vec![10u8, 20, 30, 255, 40, 0, 0, 255, 1, 2, 3, 4];
    assert_eq!(read_pixel(&data, 0), 15);
    assert_eq!(read_pixel(&data, 4), 10);
    assert_eq!(read_pixel(&data, 8), 0);
    assert_eq!(reduce_pixels(&data), vec![15u8, 10, 0]);
}

#[test]
fn observed_range_of_mixed_values() {
    let brightness = vec![50u8, 7, 120, 7, 99];
    assert_eq!(observed_range(&brightness), Scale { low: 7, high: 120 });
    let single = vec![42u8];
    assert_eq!(observed_range(&single), Scale { low: 42, high: 42 });
    assert_eq!(observed_range(&Vec::new()), Scale { low: 255, high: 0 });
}

#[test]
fn observed_mode_single_pixel() {
    let out = convert(vec![200u8, 100, 50, 255], GRADIENT, true).unwrap();
    assert_eq!(out, vec!['$']);
}

#[test]
fn custom_two_glyph_gradient() {
    let data = vec![0u8, 0, 0, 255, 255, 255, 255, 255];
    assert_eq!(convert(data.clone(), "#.", false).unwrap(), vec!['#', '#']);
    assert_eq!(convert(data, "#.", true).unwrap(), vec!['#', '.']);
}

#[test]
fn non_ascii_gradient_counts_characters() {
    let glyphs = gradient_chars("█▓░ ");
    assert_eq!(glyphs, vec!['█', '▓', '░', ' ']);
    let data = vec![0u8, 0, 0, 255, 255, 255, 255, 255];
    assert_eq!(convert(data, "█▓░ ", true).unwrap(), vec!['█', ' ']);
}

#[test]
fn short_gradient_is_rejected() {
    let data = vec![0u8, 0, 0, 255];
    assert_eq!(convert(data.clone(), "#", false), Err(ConversionError::EmptyGradient));
    assert_eq!(convert(data, "", true), Err(ConversionError::EmptyGradient));
    assert_eq!(convert(vec![1u8], "", true), Err(ConversionError::EmptyGradient));
}

#[test]
fn partial_pixel_is_rejected() {
    let data = vec![0u8, 0, 0, 255, 9];
    assert_eq!(convert(data, GRADIENT, false), Err(ConversionError::InvalidBufferLength));
}

#[test]
fn grid_must_match_buffer() {
    let data = vec![0u8, 0, 0, 255, 255, 255, 255, 255];
    assert_eq!(
        image_to_ascii(data.clone(), 2, 1, GRADIENT, false),
        Ok(vec!['$', '?'])
    );
    assert_eq!(
        image_to_ascii(data.clone(), 1, 1, GRADIENT, false),
        Err(ConversionError::InvalidBufferLength)
    );
    assert_eq!(
        image_to_ascii(data.clone(), usize::MAX, 2, GRADIENT, false),
        Err(ConversionError::InvalidBufferLength)
    );
    assert_eq!(
        image_to_ascii(data, 2, 1, "x", false),
        Err(ConversionError::EmptyGradient)
    );
}
