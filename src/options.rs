use vstd::prelude::*;

verus! {

/// Family used when a document names a font that nothing provides.
pub open spec fn fallback_family() -> Seq<char> {
    "National Park"@
}

/// Settings that the SVG parser reads: the font faces registered so far,
/// in registration order, and the fallback font family.
pub struct ParserOptions {
    /// Raw font files, in the order they were registered.
    pub fonts: Vec<Vec<u8>>,
    /// Family used when a requested font is not available.
    pub font_family: String,
    /// Dots per inch of user units.
    pub units_dpi: u32,
}

impl ParserOptions {
    /// Options with no fonts, no fallback family and 96 dpi user units.
    pub fn new() -> (r: ParserOptions)
        ensures
            r.fonts@.len() == 0,
            r.font_family@.len() == 0,
            r.units_dpi == 96,
    {
        ParserOptions { fonts: Vec::new(), font_family: String::new(), units_dpi: 96 }
    }
}

/// Registers the fonts that ship with the library. None are bundled, so the
/// list stays as it is.
fn load_static_font_data(fonts: &mut Vec<Vec<u8>>)
    ensures
        final(fonts)@ == old(fonts)@,
{
}

/// Resets the font database to the bundled fonts and makes the bundled
/// fallback family the default.
pub fn init_fontdb(opts: &mut ParserOptions)
    ensures
        final(opts).fonts@.len() == 0,
        final(opts).font_family@ == fallback_family(),
        final(opts).units_dpi == old(opts).units_dpi,
{
    let mut db: Vec<Vec<u8>> = Vec::new();
    load_static_font_data(&mut db);
    opts.fonts = db;
    opts.font_family = "National Park".to_owned();
    proof {
        reveal_strlit("National Park");
    }
}

/// Registers one more font file after those already known.
pub fn add_font_to_fontdb(opts: &mut ParserOptions, font_data: Vec<u8>)
    ensures
        final(opts).fonts@ == old(opts).fonts@.push(font_data),
        final(opts).font_family@ == old(opts).font_family@,
        final(opts).units_dpi == old(opts).units_dpi,
{
    opts.fonts.push(font_data);
}

/// Sets the dots per inch of user units.
pub fn set_units_dpi(opts: &mut ParserOptions, dpi_units: u32)
    ensures
        final(opts).units_dpi == dpi_units,
        final(opts).fonts@ == old(opts).fonts@,
        final(opts).font_family@ == old(opts).font_family@,
{
    opts.units_dpi = dpi_units;
}

} // verus!
