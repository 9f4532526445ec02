use bullet_svg::options::{add_font_to_fontdb, init_fontdb, set_units_dpi, ParserOptions};

#[test]
fn init_sets_fallback_family_and_clears_fonts() {
    let mut opts = ParserOptions::new();
    add_font_to_fontdb(&mut opts, vec![1, 2, 3]);
    init_fontdb(&mut opts);
    assert_eq!(opts.font_family, "National Park");
    assert!(opts.fonts.is_empty());
    assert_eq!(opts.units_dpi, 96);
}

#[test]
fn fonts_are_kept_in_registration_order() {
    let mut opts = ParserOptions::new();
    init_fontdb(&mut opts);
    add_font_to_fontdb(&mut opts, vec![1]);
    add_font_to_fontdb(&mut opts, vec![2, 2]);
    assert_eq!(opts.fonts, vec![vec![1u8], vec![2u8, 2u8]]);
    assert_eq!(opts.font_family, "National Park");
}

#[test]
fn units_dpi_is_set() {
    let mut opts = ParserOptions::new();
    set_units_dpi(&mut opts, 72);
    assert_eq!(opts.units_dpi, 72);
    assert!(opts.fonts.is_empty());
}
