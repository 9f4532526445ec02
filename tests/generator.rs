use bullet_svg::generator::{get_svg_dpi_units, guess_svg_generator, SvgGenerator};

#[test]
fn it_works() {
    assert_eq!(2 + 2, 4);
}

#[test]
fn detects_illustrator() {
    let s = "<!-- Generator: Adobe Illustrator 24.0.0 --><svg></svg>";
    assert_eq!(guess_svg_generator(s), SvgGenerator::Illustrator);
    assert_eq!(guess_svg_generator("xmlns:illustrator=\"x\""), SvgGenerator::Illustrator);
}

#[test]
fn detects_inkscape() {
    assert_eq!(guess_svg_generator("<svg xmlns:inkscape=\"http://www.inkscape.org\">"), SvgGenerator::Inkscape);
    assert_eq!(guess_svg_generator("Created with Inkscape"), SvgGenerator::Inkscape);
}

#[test]
fn detects_smart_router() {
    assert_eq!(guess_svg_generator("SmartRouter export"), SvgGenerator::SmartRouter);
    assert_eq!(guess_svg_generator("smartrouter"), SvgGenerator::SmartRouter);
    assert_eq!(guess_svg_generator("made by Shaper Tools"), SvgGenerator::SmartRouter);
}

#[test]
fn detects_vectr_and_affinity() {
    assert_eq!(guess_svg_generator("<svg><use xlink:href=\"#a\"/></svg>"), SvgGenerator::Vectr);
    assert_eq!(guess_svg_generator("<svg xmlns:serif=\"http://www.serif.com/\">"), SvgGenerator::Affinity);
    // `<use` needs a following space to count.
    assert_eq!(guess_svg_generator("<svg><use/></svg>"), SvgGenerator::Ambiguous);
}

#[test]
fn detection_order_is_fixed() {
    // Illustrator is checked before Inkscape, Inkscape before Vectr.
    assert_eq!(guess_svg_generator("Inkscape Illustrator"), SvgGenerator::Illustrator);
    assert_eq!(guess_svg_generator("<use inkscape"), SvgGenerator::Inkscape);
    assert_eq!(guess_svg_generator("<use xmlns:serif"), SvgGenerator::Vectr);
}

#[test]
fn empty_document_is_ambiguous() {
    assert_eq!(guess_svg_generator(""), SvgGenerator::Ambiguous);
    assert_eq!(guess_svg_generator("<svg/>"), SvgGenerator::Ambiguous);
}

#[test]
fn dpi_per_generator() {
    assert_eq!(SvgGenerator::SmartRouter.get_dpi_value(), 72);
    assert_eq!(SvgGenerator::Illustrator.get_dpi_value(), 72);
    assert_eq!(SvgGenerator::Inkscape.get_dpi_value(), 96);
    assert_eq!(SvgGenerator::Vectr.get_dpi_value(), 96);
    assert_eq!(SvgGenerator::Affinity.get_dpi_value(), 72);
    assert_eq!(SvgGenerator::Ambiguous.get_dpi_value(), 96);
    assert_eq!(get_svg_dpi_units("Adobe Illustrator"), 72);
    assert_eq!(get_svg_dpi_units("<svg/>"), 96);
}

#[test]
fn generator_names() {
    assert_eq!(SvgGenerator::SmartRouter.name(), "SmartRouter");
    assert_eq!(SvgGenerator::Illustrator.name(), "Illustrator");
    assert_eq!(SvgGenerator::Inkscape.name(), "Inkscape");
    assert_eq!(SvgGenerator::Vectr.name(), "Vectr");
    assert_eq!(SvgGenerator::Affinity.name(), "Affinity");
    assert_eq!(SvgGenerator::Ambiguous.name(), "Ambiguous");
}
