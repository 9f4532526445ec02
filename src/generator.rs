use vstd::prelude::*;

use crate::text::{has_substring, str_contains};

verus! {

/// The authoring tool that most likely wrote an SVG document.
#[derive(Clone, Copy, Debug, PartialEq, Eq, Structural)]
pub enum SvgGenerator {
    SmartRouter,
    Illustrator,
    Inkscape,
    Vectr,
    Affinity,
    Ambiguous,
}

/// The detection rules, tried in order: the first marker found decides.
pub open spec fn spec_guess_generator(s: Seq<char>) -> SvgGenerator {
    if has_substring(s, "Illustrator"@) || has_substring(s, "illustrator"@) {
        SvgGenerator::Illustrator
    } else if has_substring(s, "Inkscape"@) || has_substring(s, "inkscape"@) {
        SvgGenerator::Inkscape
    } else if has_substring(s, "SmartRouter"@) || has_substring(s, "smartrouter"@)
        || has_substring(s, "Shaper Tools"@) {
        SvgGenerator::SmartRouter
    } else if has_substring(s, "<use "@) {
        // A `<use>` element alone does not prove Vectr wrote the file, but
        // with none of the markers above it is the best remaining guess.
        SvgGenerator::Vectr
    } else if has_substring(s, "xmlns:serif"@) {
        SvgGenerator::Affinity
    } else {
        SvgGenerator::Ambiguous
    }
}

/// Dots per inch that a generator assumes for user units.
pub open spec fn spec_dpi_value(g: SvgGenerator) -> u32 {
    match g {
        SvgGenerator::SmartRouter => 72,
        SvgGenerator::Illustrator => 72,
        SvgGenerator::Inkscape => 96,
        SvgGenerator::Vectr => 96,
        SvgGenerator::Affinity => 72,
        SvgGenerator::Ambiguous => 96,
    }
}

impl SvgGenerator {
    /// Dots per inch that this generator assumes for user units.
    pub fn get_dpi_value(&self) -> (r: u32)
        ensures
            r == spec_dpi_value(*self),
    {
        match *self {
            SvgGenerator::SmartRouter => 72,
            SvgGenerator::Illustrator => 72,
            SvgGenerator::Inkscape => 96,
            SvgGenerator::Vectr => 96,
            SvgGenerator::Affinity => 72,
            SvgGenerator::Ambiguous => 96,
        }
    }

    /// The generator's display name.
    pub fn name(&self) -> (r: String)
        ensures
            r@ == match *self {
                SvgGenerator::SmartRouter => "SmartRouter"@,
                SvgGenerator::Illustrator => "Illustrator"@,
                SvgGenerator::Inkscape => "Inkscape"@,
                SvgGenerator::Vectr => "Vectr"@,
                SvgGenerator::Affinity => "Affinity"@,
                SvgGenerator::Ambiguous => "Ambiguous"@,
            },
    {
        match *self {
            SvgGenerator::SmartRouter => "SmartRouter".to_owned(),
            SvgGenerator::Illustrator => "Illustrator".to_owned(),
            SvgGenerator::Inkscape => "Inkscape".to_owned(),
            SvgGenerator::Vectr => "Vectr".to_owned(),
            SvgGenerator::Affinity => "Affinity".to_owned(),
            SvgGenerator::Ambiguous => "Ambiguous".to_owned(),
        }
    }
}

/// Guesses which tool wrote `svg_str` from the markers it leaves in the text.
pub fn guess_svg_generator(svg_str: &str) -> (r: SvgGenerator)
    ensures
        r == spec_guess_generator(svg_str@),
{
    if str_contains(svg_str, "Illustrator") || str_contains(svg_str, "illustrator") {
        return SvgGenerator::Illustrator;
    }
    if str_contains(svg_str, "Inkscape") || str_contains(svg_str, "inkscape") {
        return SvgGenerator::Inkscape;
    }
    if str_contains(svg_str, "SmartRouter") || str_contains(svg_str, "smartrouter")
        || str_contains(svg_str, "Shaper Tools") {
        return SvgGenerator::SmartRouter;
    }
    if str_contains(svg_str, "<use ") {
        return SvgGenerator::Vectr;
    }
    if str_contains(svg_str, "xmlns:serif") {
        return SvgGenerator::Affinity;
    }
    SvgGenerator::Ambiguous
}

/// Dots per inch of user units in `svg_str`, as its guessed generator has them.
pub fn get_svg_dpi_units(svg_str: &str) -> (r: u32)
    ensures
        r == spec_dpi_value(spec_guess_generator(svg_str@)),
{
    guess_svg_generator(svg_str).get_dpi_value()
}

} // verus!
