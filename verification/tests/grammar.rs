//! The colour grammar of the library held against the same grammar written
//! with nom's combinators, on many documents.

use nom::{
    branch::alt,
    bytes::complete::{tag, take},
    character::complete::{char, none_of, one_of, space0, u8},
    combinator::{cut, eof, not, opt, peek, recognize},
    multi::{many0, many1},
    number::complete::float,
    sequence::{delimited, preceded, tuple},
    IResult, Parser,
};
use reaper_svg::color::Color;
use reaper_svg::parser::{self, ParseError, TextElement};

const HEX: &str = "0123456789abcdefABCDEF";

#[derive(Debug, PartialEq)]
enum Piece<'a> {
    Text(&'a str),
    Color(Color),
}

fn nom_channel(input: &str) -> IResult<&str, u8> {
    delimited(space0, u8, space0)(input)
}

fn nom_rgb(input: &str) -> IResult<&str, Color> {
    delimited(
        tag("rgb("),
        cut(tuple((nom_channel, char(','), nom_channel, char(','), nom_channel))),
        cut(char(')')),
    )
    .map(|(r, _, g, _, b)| Color::RGB(r, g, b))
    .parse(input)
}

fn nom_rgba(input: &str) -> IResult<&str, Color> {
    delimited(
        tag("rgba("),
        cut(tuple((
            nom_channel,
            char(','),
            nom_channel,
            char(','),
            nom_channel,
            char(','),
            nom_channel,
        ))),
        cut(char(')')),
    )
    .map(|(r, _, g, _, b, _, a)| Color::RGBA(r, g, b, a))
    .parse(input)
}

fn nom_numeric(input: &str) -> IResult<&str, Color> {
    alt((nom_rgb, nom_rgba))(input)
}

fn nom_pair(input: &str) -> IResult<&str, &str> {
    recognize(tuple((one_of(HEX), one_of(HEX))))(input)
}

fn nom_no_hex_ahead(input: &str) -> IResult<&str, ()> {
    peek(alt((eof.map(|_| ()), none_of(HEX).map(|_| ()))))(input)
}

fn byte(digits: &str) -> u8 {
    u8::from_str_radix(digits, 16).unwrap()
}

fn nom_hex(input: &str) -> IResult<&str, Color> {
    delimited(
        alt((tag("#"), tag("0x"))),
        tuple((nom_pair, nom_pair, nom_pair, opt(nom_pair))),
        nom_no_hex_ahead,
    )
    .map(|(r, g, b, a)| match a {
        Some(a) => Color::RGBA(byte(r), byte(g), byte(b), byte(a)),
        None => Color::RGB(byte(r), byte(g), byte(b)),
    })
    .parse(input)
}

fn nom_hex_short(input: &str) -> IResult<&str, Color> {
    delimited(
        alt((tag("#"), tag("0x"))),
        tuple((recognize(one_of(HEX)), recognize(one_of(HEX)), recognize(one_of(HEX)))),
        nom_no_hex_ahead,
    )
    .map(|(r, g, b)| Color::RGB(byte(r) * 0x11, byte(g) * 0x11, byte(b) * 0x11))
    .parse(input)
}

fn nom_color(input: &str) -> IResult<&str, Color> {
    alt((nom_hex, nom_hex_short, nom_numeric))(input)
}

fn nom_fill_opacity(input: &str) -> IResult<&str, f32> {
    preceded(tag(";fill-opacity:"), float)(input)
}

fn with_alpha(color: Color, opacity: f32) -> Color {
    color.with_a((255.0 * opacity).round() as u8)
}

fn nom_color_with_opacity(input: &str) -> IResult<&str, Color> {
    nom_color(input).map(|(input, color)| match nom_fill_opacity(input) {
        Ok((input, opacity)) => (input, with_alpha(color, opacity)),
        Err(_) => (input, color),
    })
}

fn nom_text(input: &str) -> IResult<&str, &str> {
    recognize(many1(preceded(not(nom_color_with_opacity), take(1usize))))(input)
}

fn nom_document(input: &str) -> IResult<&str, Vec<Piece<'_>>> {
    many0(alt((nom_color_with_opacity.map(Piece::Color), nom_text.map(Piece::Text)))).parse(input)
}

/// What a nom parser gave, in the terms of the library.
fn outcome<'a, T>(input: &'a str, parsed: IResult<&'a str, T>) -> Result<(usize, T), ParseError> {
    match parsed {
        Ok((rest, value)) => Ok((input.len() - rest.len(), value)),
        Err(nom::Err::Error(_)) => Err(ParseError::NoMatch),
        Err(nom::Err::Failure(_)) => Err(ParseError::Malformed),
        Err(nom::Err::Incomplete(_)) => unreachable!(),
    }
}

fn pieces<'a>(input: &'a str, elements: Vec<TextElement>) -> Vec<Piece<'a>> {
    elements
        .into_iter()
        .map(|element| match element {
            TextElement::Text { start, end } => Piece::Text(&input[start..end]),
            TextElement::Color(color) => Piece::Color(color),
        })
        .collect()
}

fn agree_on(input: &str) {
    let bytes = input.as_bytes();
    assert_eq!(parser::rgb_numeric(bytes), outcome(input, nom_rgb(input)), "rgb {input:?}");
    assert_eq!(parser::rgba_numeric(bytes), outcome(input, nom_rgba(input)), "rgba {input:?}");
    assert_eq!(parser::color_numeric(bytes), outcome(input, nom_numeric(input)), "numeric {input:?}");
    assert_eq!(parser::color_hex(bytes), outcome(input, nom_hex(input)), "hex {input:?}");
    assert_eq!(parser::rgb_hex_short(bytes), outcome(input, nom_hex_short(input)), "short {input:?}");
    assert_eq!(parser::color(bytes), outcome(input, nom_color(input)), "color {input:?}");
    assert_eq!(
        parser::color_with_fill_opacity(bytes),
        outcome(input, nom_color_with_opacity(input)),
        "color with opacity {input:?}"
    );
    assert_eq!(
        parser::non_color_text(bytes),
        outcome(input, nom_text(input)).map(|(taken, _)| taken),
        "text {input:?}"
    );
    assert_eq!(
        parser::text_with_colors(bytes).map(|(taken, elements)| (taken, pieces(input, elements))),
        outcome(input, nom_document(input)),
        "document {input:?}"
    );
}

/// A small generator of numbers, the same on every run.
struct Lcg(u64);

impl Lcg {
    fn next(&mut self, bound: usize) -> usize {
        self.0 = self.0.wrapping_mul(6364136223846793005).wrapping_add(1442695040888963407);
        ((self.0 >> 33) as usize) % bound
    }
}

const TOKENS: [&str; 44] = [
    "#", "0x", "rgb(", "rgba(", ")", ",", " ", "\t", "\n", "0", "1", "7", "25", "255", "256", "300",
    "a", "b", "c", "f", "F", "A", "g", "x", "r", "rgb", ";fill-opacity:", ";fill-opacity", "0.5",
    ".", ".5", "e", "E", "-", "+", "1e", "inf", "nan", "infinity", "é", "色", "00", "ff", "0.00196",
];

#[test]
fn the_grammar_agrees_with_nom_on_chosen_documents() {
    let documents = [
        "",
        "#",
        "0x",
        "rgb(",
        "rgba(",
        "#fff",
        "#ffffff",
        "#ffffffff",
        "#fffffffff",
        "0xfff",
        "0xABCDEF",
        "0xabcdefg",
        "rgb(1,2,3)",
        "rgb( 1 ,\t2 , 3 )",
        "rgb(1,2,3,4)",
        "rgba(1,2,3,4)",
        "rgba(1,2,3)",
        "rgb(256,0,0)",
        "rgb(0255,00,000)",
        "rgb(-1,0,0)",
        "rgb(1;2;3)",
        "fill:#fff;fill-opacity:0.5;stroke:rgb(1, 2, 3);fill-opacity:.25",
        "#fff;fill-opacity:1e",
        "#fff;fill-opacity:1e5",
        "#fff;fill-opacity:-1",
        "#fff;fill-opacity:nan",
        "#fff;fill-opacity:INF",
        "#fff;fill-opacity:infinity",
        "#fff;fill-opacity:+.5e-1x",
        "#fff;fill-opacity:0.00196078",
        "#fff;fill-opacity:0.50196",
        "#ffffff80;fill-opacity:0.1",
        "<svg fill=\"#fff\" stroke=\"0x123456\">größe 色</svg>",
        "x rgb(1,2,3",
        "é#fffé",
        "#12340x567890",
    ];
    for document in documents {
        agree_on(document);
        for start in 0..document.len() {
            if document.is_char_boundary(start) {
                agree_on(&document[start..]);
            }
        }
    }
}

#[test]
fn the_grammar_agrees_with_nom_on_many_documents() {
    let mut numbers = Lcg(0x5eed);
    for _ in 0..20000 {
        let count = numbers.next(9);
        let mut document = String::new();
        for _ in 0..count {
            document.push_str(TOKENS[numbers.next(TOKENS.len())]);
        }
        agree_on(&document);
    }
}

#[test]
fn the_grammar_agrees_with_nom_on_colours_in_brackets() {
    let parts = ["", " ", "\t ", "0", "7", "00", "255", "256", "1000", "x", ",", ")", "-", "+1"];
    let mut numbers = Lcg(0xc010);
    for _ in 0..20000 {
        let mut document = String::from(if numbers.next(2) == 0 { "rgb(" } else { "rgba(" });
        let count = numbers.next(12);
        for _ in 0..count {
            document.push_str(parts[numbers.next(parts.len())]);
        }
        if numbers.next(2) == 0 {
            document.push(')');
        }
        agree_on(&document);
    }
}

#[test]
fn the_grammar_agrees_with_nom_on_opacities() {
    let parts = ["0", "1", "5", ".", "e", "E", "-", "+", "9", "00", "25", "nan", "inf", "x", " "];
    let mut numbers = Lcg(0x0bac);
    for _ in 0..20000 {
        let mut document = String::from("#102030;fill-opacity:");
        let count = numbers.next(8);
        for _ in 0..count {
            document.push_str(parts[numbers.next(parts.len())]);
        }
        agree_on(&document);
    }
}
