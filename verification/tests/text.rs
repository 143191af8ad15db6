use reaper_svg::color::Color;
use reaper_svg::map_colors::{get_colors, map_colors, MapError, RenderOptions};
use reaper_svg::parser::{
    color_with_fill_opacity, fill_opacity, non_color_text, text_with_colors, xml_text, ParseError,
    TextElement,
};

/// A piece of a document with its text written out.
#[derive(Debug, PartialEq)]
enum Piece<'a> {
    Text(&'a str),
    Color(Color),
}

fn pieces<'a>(input: &'a str, elements: &[TextElement]) -> Vec<Piece<'a>> {
    elements
        .iter()
        .map(|element| match element {
            TextElement::Text { start, end } => Piece::Text(&input[*start..*end]),
            TextElement::Color(color) => Piece::Color(*color),
        })
        .collect()
}

fn split(input: &str) -> Vec<Piece<'_>> {
    let (taken, elements) = text_with_colors(input.as_bytes()).unwrap();
    assert_eq!(taken, input.len());
    pieces(input, &elements)
}

fn text_before_color(input: &str) -> Result<&str, ParseError> {
    non_color_text(input.as_bytes()).map(|taken| &input[..taken])
}

const LENIENT: RenderOptions =
    RenderOptions { all_input_colors: false, all_svg_colors: false, include_alpha: false };

#[test]
fn test_text_no_color() {
    assert_eq!(text_before_color("apple #000000").unwrap(), "apple ");
    assert_eq!(text_before_color("apple 0x000000").unwrap(), "apple ");
    assert_eq!(text_before_color("apple rgb(1,2,3)").unwrap(), "apple ");
    assert!(text_before_color("rgb(1, 2, 3)").is_err());
}

#[test]
fn test_text() {
    assert_eq!(
        split("apple #000000"),
        vec![Piece::Text("apple "), Piece::Color(Color::RGB(0, 0, 0))]
    );
    assert_eq!(
        split("apple 0x000000"),
        vec![Piece::Text("apple "), Piece::Color(Color::RGB(0, 0, 0))]
    );
    assert_eq!(
        split("apple rgb(1,2,3) apple"),
        vec![
            Piece::Text("apple "),
            Piece::Color(Color::RGB(1, 2, 3)),
            Piece::Text(" apple")
        ]
    );
}

#[test]
fn text_runs_carry_their_place_in_the_document() {
    let (_, elements) = text_with_colors(b"xy#123zw").unwrap();
    assert_eq!(
        elements,
        vec![
            TextElement::Text { start: 0, end: 2 },
            TextElement::Color(Color::RGB(0x11, 0x22, 0x33)),
            TextElement::Text { start: 6, end: 8 },
        ]
    );
}

#[test]
fn text_without_colours_and_colours_without_text() {
    assert_eq!(split(""), vec![]);
    assert_eq!(split("no colours here"), vec![Piece::Text("no colours here")]);
    assert_eq!(split("#fff"), vec![Piece::Color(Color::RGB(255, 255, 255))]);
    assert_eq!(
        split("#fff#000000"),
        vec![Piece::Color(Color::RGB(255, 255, 255)), Piece::Color(Color::RGB(0, 0, 0))]
    );
    assert_eq!(split("#12 x"), vec![Piece::Text("#12 x")]);
    assert_eq!(split("#1234567"), vec![Piece::Text("#1234567")]);
    assert_eq!(split("#1234567890"), vec![Piece::Text("#1234567890")]);
    assert_eq!(split("ab#123cd"), vec![Piece::Text("ab#123cd")]);
    assert_eq!(
        split("#12340x567890"),
        vec![Piece::Text("#1234"), Piece::Color(Color::RGB(0x56, 0x78, 0x90))]
    );
    assert_eq!(text_before_color(""), Err(ParseError::NoMatch));
    assert_eq!(text_before_color("#fff tail"), Err(ParseError::NoMatch));
    assert_eq!(text_before_color("plain"), Ok("plain"));
}

#[test]
fn text_in_other_scripts_is_kept_whole() {
    assert_eq!(
        split("größe: #fff – 色 rgb(1,2,3)✓"),
        vec![
            Piece::Text("größe: "),
            Piece::Color(Color::RGB(255, 255, 255)),
            Piece::Text(" – 色 "),
            Piece::Color(Color::RGB(1, 2, 3)),
            Piece::Text("✓"),
        ]
    );
}

#[test]
fn a_malformed_colour_fails_the_whole_document() {
    assert_eq!(text_with_colors(b"fill: rgb(300, 0, 0)"), Err(ParseError::Malformed));
    assert_eq!(text_with_colors(b"rgb(1,2"), Err(ParseError::Malformed));
    assert_eq!(text_with_colors(b"#fff rgba(1,2,3)"), Err(ParseError::Malformed));
    assert_eq!(xml_text(b"a rgb(x) b"), Err(ParseError::Malformed));
    assert_eq!(text_before_color("fill: rgb(300, 0, 0)"), Err(ParseError::Malformed));
    assert_eq!(text_before_color("rgb("), Err(ParseError::Malformed));
    assert_eq!(get_colors(b"a rgb(x) b"), Err(ParseError::Malformed));
    assert_eq!(
        map_colors(b"a rgb(x) b", &[], &LENIENT),
        Err(MapError::Parse(ParseError::Malformed))
    );
}

#[test]
fn an_opacity_behind_a_colour_becomes_its_alpha() {
    assert_eq!(
        color_with_fill_opacity(b"#102030;fill-opacity:0.5\""),
        Ok((24, Color::RGBA(0x10, 0x20, 0x30, 128)))
    );
    assert_eq!(
        color_with_fill_opacity(b"rgb(1, 2, 3);fill-opacity:1"),
        Ok((27, Color::RGBA(1, 2, 3, 255)))
    );
    assert_eq!(
        color_with_fill_opacity(b"#123;fill-opacity:.25;"),
        Ok((21, Color::RGBA(0x11, 0x22, 0x33, 64)))
    );
    assert_eq!(
        color_with_fill_opacity(b"#123;fill-opacity:2.5e-1x"),
        Ok((24, Color::RGBA(0x11, 0x22, 0x33, 64)))
    );
    // A colour with an alpha of its own keeps it.
    assert_eq!(
        color_with_fill_opacity(b"#10203040;fill-opacity:0.5"),
        Ok((26, Color::RGBA(0x10, 0x20, 0x30, 0x40)))
    );
    assert_eq!(
        color_with_fill_opacity(b"rgba(1,2,3,4);fill-opacity:1"),
        Ok((28, Color::RGBA(1, 2, 3, 4)))
    );
}

#[test]
fn what_is_no_opacity_is_left_behind_the_colour() {
    assert_eq!(color_with_fill_opacity(b"#102030"), Ok((7, Color::RGB(0x10, 0x20, 0x30))));
    assert_eq!(color_with_fill_opacity(b"#102030;fill:1"), Ok((7, Color::RGB(0x10, 0x20, 0x30))));
    assert_eq!(
        color_with_fill_opacity(b"#102030;fill-opacity:x"),
        Ok((7, Color::RGB(0x10, 0x20, 0x30)))
    );
    assert_eq!(
        color_with_fill_opacity(b"#102030;fill-opacity:1e"),
        Ok((7, Color::RGB(0x10, 0x20, 0x30)))
    );
    assert_eq!(
        color_with_fill_opacity(b"#102030;fill-opacity:"),
        Ok((7, Color::RGB(0x10, 0x20, 0x30)))
    );
    assert_eq!(
        color_with_fill_opacity(b"#102030; fill-opacity:1"),
        Ok((7, Color::RGB(0x10, 0x20, 0x30)))
    );
    assert_eq!(color_with_fill_opacity(b";fill-opacity:1"), Err(ParseError::NoMatch));
    assert_eq!(color_with_fill_opacity(b"rgb(1,2,3"), Err(ParseError::Malformed));
}

#[test]
fn fill_opacity_reads_a_number() {
    assert_eq!(fill_opacity(b";fill-opacity:0.5"), Some((17, 0.5f32.to_bits())));
    assert_eq!(fill_opacity(b";fill-opacity:1;x"), Some((15, 1.0f32.to_bits())));
    assert_eq!(fill_opacity(b";fill-opacity:-3e2 "), Some((18, (-300.0f32).to_bits())));
    assert_eq!(fill_opacity(b";fill-opacity:inf"), Some((17, f32::INFINITY.to_bits())));
    assert_eq!(fill_opacity(b";fill-opacity:0.1"), Some((17, 0.1f32.to_bits())));
    assert_eq!(fill_opacity(b";fill-opacity:"), None);
    assert_eq!(fill_opacity(b";fill-opacity"), None);
    assert_eq!(fill_opacity(b";fill-opacitx:1"), None);
    assert_eq!(fill_opacity(b"fill-opacity:1"), None);
    assert_eq!(fill_opacity(b""), None);
}

#[test]
fn opacities_in_a_document() {
    assert_eq!(
        split("fill:#fff;fill-opacity:0.2;stroke:#000"),
        vec![
            Piece::Text("fill:"),
            Piece::Color(Color::RGBA(255, 255, 255, 51)),
            Piece::Text(";stroke:"),
            Piece::Color(Color::RGB(0, 0, 0)),
        ]
    );
    assert_eq!(
        split("#fff;fill-opacity:none"),
        vec![Piece::Color(Color::RGB(255, 255, 255)), Piece::Text(";fill-opacity:none")]
    );
}

#[test]
fn get_colors_lists_each_colour_once() {
    assert_eq!(get_colors(b""), Ok(vec![]));
    assert_eq!(get_colors(b"no colours"), Ok(vec![]));
    assert_eq!(
        get_colors(b"a #fff b #000000 c #ffffff d 0xfff e rgb(0, 0, 0) f #fff;fill-opacity:1"),
        Ok(vec![Color::RGB(255, 255, 255), Color::RGB(0, 0, 0), Color::RGBA(255, 255, 255, 255)])
    );
}

#[test]
fn map_colors_replaces_what_the_map_names() {
    let map = [
        (Color::RGB(1, 2, 3), Color::RGB(9, 9, 9)),
        (Color::RGB(0, 0, 0), Color::RGBA(4, 5, 6, 7)),
    ];
    let input = "a rgb(1,2,3) b #000 c #abcdef d";
    let mapped = map_colors(input.as_bytes(), &map, &LENIENT).unwrap();
    assert_eq!(
        pieces(input, &mapped),
        vec![
            Piece::Text("a "),
            Piece::Color(Color::RGB(9, 9, 9)),
            Piece::Text(" b "),
            Piece::Color(Color::RGBA(4, 5, 6, 7)),
            Piece::Text(" c "),
            Piece::Color(Color::RGB(0xab, 0xcd, 0xef)),
            Piece::Text(" d"),
        ]
    );
}

#[test]
fn map_colors_takes_the_first_entry_for_a_colour() {
    let map = [
        (Color::RGB(1, 2, 3), Color::RGB(7, 7, 7)),
        (Color::RGB(1, 2, 3), Color::RGB(8, 8, 8)),
    ];
    assert_eq!(
        map_colors(b"#010203", &map, &LENIENT),
        Ok(vec![TextElement::Color(Color::RGB(7, 7, 7))])
    );
}

#[test]
fn map_colors_never_replaces_the_marker_colours() {
    let map = [
        (Color::RGB(255, 255, 0), Color::RGB(1, 1, 1)),
        (Color::RGB(255, 0, 255), Color::RGB(2, 2, 2)),
        (Color::RGBA(255, 255, 0, 255), Color::RGB(3, 3, 3)),
        (Color::RGBA(255, 255, 0, 128), Color::RGB(4, 4, 4)),
    ];
    let strict =
        RenderOptions { all_input_colors: false, all_svg_colors: true, include_alpha: false };
    let input = "#ffff00 #ff00ff #ffff00ff #ffff0080 #f0f";
    let mapped = map_colors(input.as_bytes(), &map, &strict).unwrap();
    assert_eq!(
        pieces(input, &mapped),
        vec![
            Piece::Color(Color::RGB(255, 255, 0)),
            Piece::Text(" "),
            Piece::Color(Color::RGB(255, 0, 255)),
            Piece::Text(" "),
            Piece::Color(Color::RGBA(255, 255, 0, 255)),
            Piece::Text(" "),
            Piece::Color(Color::RGB(4, 4, 4)),
            Piece::Text(" "),
            Piece::Color(Color::RGB(255, 0, 255)),
        ]
    );
}

#[test]
fn every_colour_of_the_document_must_be_in_the_map_where_asked() {
    let map = [(Color::RGB(1, 2, 3), Color::RGB(9, 9, 9))];
    let strict =
        RenderOptions { all_input_colors: false, all_svg_colors: true, include_alpha: false };
    assert_eq!(
        map_colors(b"#010203 #040506 #070809", &map, &strict),
        Err(MapError::SvgColorNotInMap(Color::RGB(4, 5, 6)))
    );
    assert_eq!(
        map_colors(b"#010203 text", &map, &strict),
        Ok(vec![TextElement::Color(Color::RGB(9, 9, 9)), TextElement::Text { start: 7, end: 12 }])
    );
}

#[test]
fn every_colour_of_the_map_must_be_in_the_document_where_asked() {
    let map = [
        (Color::RGB(1, 2, 3), Color::RGB(9, 9, 9)),
        (Color::RGB(4, 5, 6), Color::RGB(8, 8, 8)),
        (Color::RGB(255, 255, 0), Color::RGB(7, 7, 7)),
        (Color::RGB(7, 8, 9), Color::RGB(6, 6, 6)),
    ];
    let strict =
        RenderOptions { all_input_colors: true, all_svg_colors: false, include_alpha: false };
    // The marker colour is in the document, but it is never looked up.
    assert_eq!(
        map_colors(b"#040506 #ffff00 #0a0b0c", &map, &strict),
        Err(MapError::ColorsNotFound(vec![
            Color::RGB(1, 2, 3),
            Color::RGB(255, 255, 0),
            Color::RGB(7, 8, 9)
        ]))
    );
    let all_used = [
        (Color::RGB(1, 2, 3), Color::RGB(9, 9, 9)),
        (Color::RGB(4, 5, 6), Color::RGB(8, 8, 8)),
    ];
    assert_eq!(
        map_colors(b"#040506#010203", &all_used, &strict),
        Ok(vec![
            TextElement::Color(Color::RGB(8, 8, 8)),
            TextElement::Color(Color::RGB(9, 9, 9))
        ])
    );
}

#[test]
fn a_colour_that_is_missing_from_the_map_is_reported_first() {
    let map = [(Color::RGB(1, 2, 3), Color::RGB(9, 9, 9))];
    let strict =
        RenderOptions { all_input_colors: true, all_svg_colors: true, include_alpha: false };
    assert_eq!(
        map_colors(b"#040506", &map, &strict),
        Err(MapError::SvgColorNotInMap(Color::RGB(4, 5, 6)))
    );
}
