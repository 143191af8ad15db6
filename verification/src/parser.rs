//! The ways a document spells a colour: `#rrggbb`, `#rrggbbaa`, `#rgb`, the
//! same behind `0x`, `rgb(r, g, b)` and `rgba(r, g, b, a)`.
//!
//! Every parser here reads a colour at the start of its input and says how
//! many bytes it took. An input that starts like a colour in brackets and
//! then goes wrong is `Malformed`, which ends the reading of a document;
//! any other input that is no colour is `NoMatch`.

use vstd::prelude::*;
use vstd::slice::slice_subrange;
use vstd::string::StringSliceAdditionalSpecFns;

use crate::color::{opacity_alpha_spec, Color};

verus! {

/// Why the start of an input is no colour.
#[derive(Clone, Copy, Debug, PartialEq, Eq, Structural)]
pub enum ParseError {
    /// The input does not start in this way.
    NoMatch,
    /// The input starts with `rgb(` or `rgba(` and does not go on as a
    /// colour.
    Malformed,
}

pub const SPACE: u8 = 0x20;

pub const TAB: u8 = 0x09;

pub const HASH: u8 = 0x23;

pub const OPEN: u8 = 0x28;

pub const CLOSE: u8 = 0x29;

pub const COMMA: u8 = 0x2c;

pub const DIGIT_0: u8 = 0x30;

pub const DIGIT_9: u8 = 0x39;

pub const UPPER_A: u8 = 0x41;

pub const UPPER_F: u8 = 0x46;

pub const LOWER_A: u8 = 0x61;

pub const LOWER_B: u8 = 0x62;

pub const LOWER_F: u8 = 0x66;

pub const LOWER_G: u8 = 0x67;

pub const LOWER_R: u8 = 0x72;

pub const LOWER_X: u8 = 0x78;

/// A space or a tab.
pub open spec fn is_space(byte: u8) -> bool {
    byte == SPACE || byte == TAB
}

/// A decimal digit.
pub open spec fn is_digit(byte: u8) -> bool {
    DIGIT_0 <= byte <= DIGIT_9
}

/// A hexadecimal digit, in either case.
pub open spec fn is_hex_digit(byte: u8) -> bool {
    is_digit(byte) || (LOWER_A <= byte <= LOWER_F) || (UPPER_A <= byte <= UPPER_F)
}

/// The number that a hexadecimal digit stands for.
pub open spec fn hex_digit_value(byte: u8) -> int {
    if is_digit(byte) {
        byte - DIGIT_0
    } else if LOWER_A <= byte <= LOWER_F {
        byte - LOWER_A + 10
    } else {
        byte - UPPER_A + 10
    }
}

/// Whether the byte at index `at` is `byte`.
pub open spec fn has_byte(input: Seq<u8>, at: int, byte: u8) -> bool {
    0 <= at < input.len() && input[at] == byte
}

/// Whether there is a hexadecimal digit at index `at`.
pub open spec fn has_hex_digit(input: Seq<u8>, at: int) -> bool {
    0 <= at < input.len() && is_hex_digit(input[at])
}

/// The first index at or behind `from` that holds no space or tab.
pub open spec fn spaces_end(input: Seq<u8>, from: int) -> int
    decreases input.len() - from,
{
    if 0 <= from < input.len() && is_space(input[from]) {
        spaces_end(input, from + 1)
    } else {
        from
    }
}

/// The first index at or behind `from` that holds no decimal digit.
pub open spec fn digits_end(input: Seq<u8>, from: int) -> int
    decreases input.len() - from,
{
    if 0 <= from < input.len() && is_digit(input[from]) {
        digits_end(input, from + 1)
    } else {
        from
    }
}

/// The number that the decimal digits from `from` up to `to` spell.
pub open spec fn decimal_value(input: Seq<u8>, from: int, to: int) -> int
    decreases to - from,
{
    if to <= from {
        0
    } else {
        decimal_value(input, from, to - 1) * 10 + (input[to - 1] - DIGIT_0)
    }
}

/// One channel of a colour in brackets at index `at`: spaces, a decimal
/// number of at most 255, spaces. Gives the index behind it and the number.
pub open spec fn channel_at(input: Seq<u8>, at: int) -> Option<(int, u8)> {
    let start = spaces_end(input, at);
    let end = digits_end(input, start);
    if end == start || decimal_value(input, start, end) > 255 {
        None
    } else {
        Some((spaces_end(input, end), decimal_value(input, start, end) as u8))
    }
}

/// One channel at index `at` and the byte `closer` behind it. Gives the
/// index behind that byte and the number.
pub open spec fn channel_then(input: Seq<u8>, at: int, closer: u8) -> Option<(int, u8)> {
    match channel_at(input, at) {
        Some((next, value)) => if has_byte(input, next, closer) {
            Some((next + 1, value))
        } else {
            None
        },
        None => None,
    }
}

/// Whether the input starts with `rgb(`.
pub open spec fn starts_rgb(input: Seq<u8>) -> bool {
    has_byte(input, 0, LOWER_R) && has_byte(input, 1, LOWER_G) && has_byte(input, 2, LOWER_B) && has_byte(
        input,
        3,
        OPEN,
    )
}

/// Whether the input starts with `rgba(`.
pub open spec fn starts_rgba(input: Seq<u8>) -> bool {
    has_byte(input, 0, LOWER_R) && has_byte(input, 1, LOWER_G) && has_byte(input, 2, LOWER_B) && has_byte(
        input,
        3,
        LOWER_A,
    ) && has_byte(input, 4, OPEN)
}

/// The number of bytes of the mark that starts a hexadecimal colour, `#` or
/// `0x`, or zero where the input starts with neither.
pub open spec fn hex_mark(input: Seq<u8>) -> int {
    if has_byte(input, 0, HASH) {
        1
    } else if has_byte(input, 0, DIGIT_0) && has_byte(input, 1, LOWER_X) {
        2
    } else {
        0
    }
}

/// The byte that the two hexadecimal digits at `at` spell.
pub open spec fn hex_pair_value(input: Seq<u8>, at: int) -> u8 {
    (hex_digit_value(input[at]) * 16 + hex_digit_value(input[at + 1])) as u8
}

/// `rgb(r, g, b)` at the start of the input.
pub open spec fn rgb_numeric_spec(input: Seq<u8>) -> Result<(int, Color), ParseError> {
    if !starts_rgb(input) {
        Err(ParseError::NoMatch)
    } else {
        match channel_then(input, 4, COMMA) {
            None => Err(ParseError::Malformed),
            Some((at_g, r)) => match channel_then(input, at_g, COMMA) {
                None => Err(ParseError::Malformed),
                Some((at_b, g)) => match channel_then(input, at_b, CLOSE) {
                    None => Err(ParseError::Malformed),
                    Some((end, b)) => Ok((end, Color::RGB(r, g, b))),
                },
            },
        }
    }
}

/// `rgba(r, g, b, a)` at the start of the input.
pub open spec fn rgba_numeric_spec(input: Seq<u8>) -> Result<(int, Color), ParseError> {
    if !starts_rgba(input) {
        Err(ParseError::NoMatch)
    } else {
        match channel_then(input, 5, COMMA) {
            None => Err(ParseError::Malformed),
            Some((at_g, r)) => match channel_then(input, at_g, COMMA) {
                None => Err(ParseError::Malformed),
                Some((at_b, g)) => match channel_then(input, at_b, COMMA) {
                    None => Err(ParseError::Malformed),
                    Some((at_a, b)) => match channel_then(input, at_a, CLOSE) {
                        None => Err(ParseError::Malformed),
                        Some((end, a)) => Ok((end, Color::RGBA(r, g, b, a))),
                    },
                },
            },
        }
    }
}

/// A colour in brackets at the start of the input.
pub open spec fn color_numeric_spec(input: Seq<u8>) -> Result<(int, Color), ParseError> {
    if starts_rgb(input) {
        rgb_numeric_spec(input)
    } else {
        rgba_numeric_spec(input)
    }
}

/// Six or eight hexadecimal digits behind `#` or `0x` at the start of the
/// input, with no further hexadecimal digit behind them.
pub open spec fn color_hex_spec(input: Seq<u8>) -> Result<(int, Color), ParseError> {
    let mark = hex_mark(input);
    if mark == 0 || !(forall|k: int| mark <= k < mark + 6 ==> has_hex_digit(input, k)) {
        Err(ParseError::NoMatch)
    } else if has_hex_digit(input, mark + 6) && has_hex_digit(input, mark + 7) {
        if has_hex_digit(input, mark + 8) {
            Err(ParseError::NoMatch)
        } else {
            Ok(
                (
                    mark + 8,
                    Color::RGBA(
                        hex_pair_value(input, mark),
                        hex_pair_value(input, mark + 2),
                        hex_pair_value(input, mark + 4),
                        hex_pair_value(input, mark + 6),
                    ),
                ),
            )
        }
    } else if has_hex_digit(input, mark + 6) {
        Err(ParseError::NoMatch)
    } else {
        Ok(
            (
                mark + 6,
                Color::RGB(
                    hex_pair_value(input, mark),
                    hex_pair_value(input, mark + 2),
                    hex_pair_value(input, mark + 4),
                ),
            ),
        )
    }
}

/// Three hexadecimal digits behind `#` or `0x` at the start of the input,
/// with no further hexadecimal digit behind them. Each digit stands for the
/// byte that repeats it.
pub open spec fn rgb_hex_short_spec(input: Seq<u8>) -> Result<(int, Color), ParseError> {
    let mark = hex_mark(input);
    if mark == 0 || !(forall|k: int| mark <= k < mark + 3 ==> has_hex_digit(input, k))
        || has_hex_digit(input, mark + 3) {
        Err(ParseError::NoMatch)
    } else {
        Ok(
            (
                mark + 3,
                Color::RGB(
                    (hex_digit_value(input[mark]) * 17) as u8,
                    (hex_digit_value(input[mark + 1]) * 17) as u8,
                    (hex_digit_value(input[mark + 2]) * 17) as u8,
                ),
            ),
        )
    }
}

/// A colour at the start of the input, in any of its spellings.
pub open spec fn color_spec(input: Seq<u8>) -> Result<(int, Color), ParseError> {
    if color_hex_spec(input) is Ok {
        color_hex_spec(input)
    } else if rgb_hex_short_spec(input) is Ok {
        rgb_hex_short_spec(input)
    } else {
        color_numeric_spec(input)
    }
}

/// Whether a parser gave what its grammar says.
pub open spec fn agrees(
    parsed: Result<(usize, Color), ParseError>,
    expected: Result<(int, Color), ParseError>,
) -> bool {
    match parsed {
        Ok((taken, color)) => expected == Ok::<(int, Color), ParseError>((taken as int, color)),
        Err(error) => expected == Err::<(int, Color), ParseError>(error),
    }
}

/// Digits up to the end of a run of digits spell at least what the digits
/// up to any index inside the run spell.
proof fn lemma_decimal_value_grows(input: Seq<u8>, from: int, upto: int, end: int)
    requires
        0 <= from <= upto <= end <= input.len(),
        forall|k: int| from <= k < end ==> is_digit(input[k]),
    ensures
        0 <= decimal_value(input, from, upto) <= decimal_value(input, from, end),
    decreases end - from,
{
    if upto < end {
        lemma_decimal_value_grows(input, from, upto, end - 1);
    } else if from < upto {
        lemma_decimal_value_grows(input, from, upto - 1, end - 1);
    }
}

/// A run of digits ends inside the input and holds digits only.
proof fn lemma_digits_end(input: Seq<u8>, from: int)
    requires
        0 <= from <= input.len(),
    ensures
        from <= digits_end(input, from) <= input.len(),
        forall|k: int| from <= k < digits_end(input, from) ==> is_digit(input[k]),
    decreases input.len() - from,
{
    if from < input.len() && is_digit(input[from]) {
        lemma_digits_end(input, from + 1);
    }
}

/// Skips spaces and tabs from index `from` on.
fn skip_spaces(bytes: &[u8], from: usize) -> (end: usize)
    requires
        from <= bytes@.len(),
    ensures
        end == spaces_end(bytes@, from as int),
        from <= end <= bytes@.len(),
{
    let mut i = from;
    while i < bytes.len() && (bytes[i] == SPACE || bytes[i] == TAB)
        invariant
            from <= i <= bytes@.len(),
            spaces_end(bytes@, from as int) == spaces_end(bytes@, i as int),
        decreases bytes@.len() - i,
    {
        i += 1;
    }
    i
}

/// Reads one channel at index `at`.
fn color_rgb_value(bytes: &[u8], at: usize) -> (found: Option<(usize, u8)>)
    requires
        at <= bytes@.len(),
    ensures
        found matches Some((next, value)) ==> next <= bytes@.len() && channel_at(bytes@, at as int)
            == Some((next as int, value)),
        found is None ==> channel_at(bytes@, at as int) is None,
{
    let start = skip_spaces(bytes, at);
    let mut i = start;
    let mut value: u32 = 0;
    while i < bytes.len() && DIGIT_0 <= bytes[i] && bytes[i] <= DIGIT_9
        invariant
            start == spaces_end(bytes@, at as int),
            start <= i <= bytes@.len(),
            digits_end(bytes@, start as int) == digits_end(bytes@, i as int),
            value == decimal_value(bytes@, start as int, i as int),
            value <= 255,
            forall|k: int| start <= k < i ==> is_digit(bytes@[k]),
        decreases bytes@.len() - i,
    {
        value = value * 10 + (bytes[i] - DIGIT_0) as u32;
        i += 1;
        if value > 255 {
            proof {
                let end = digits_end(bytes@, start as int);
                assert(digits_end(bytes@, i as int - 1) == end);
                lemma_digits_end(bytes@, i as int);
                lemma_decimal_value_grows(bytes@, start as int, i as int, end);
            }
            return None;
        }
    }
    if i == start {
        return None;
    }
    let next = skip_spaces(bytes, i);
    Some((next, value as u8))
}

/// Reads one channel at index `at` and the byte `closer` behind it.
fn channel_and(bytes: &[u8], at: usize, closer: u8) -> (found: Option<(usize, u8)>)
    requires
        at <= bytes@.len(),
    ensures
        found matches Some((next, value)) ==> next <= bytes@.len() && channel_then(
            bytes@,
            at as int,
            closer,
        ) == Some((next as int, value)),
        found is None ==> channel_then(bytes@, at as int, closer) is None,
{
    match color_rgb_value(bytes, at) {
        Some((next, value)) => {
            if next < bytes.len() && bytes[next] == closer {
                Some((next + 1, value))
            } else {
                None
            }
        },
        None => None,
    }
}

/// Whether the byte at index `at` is `byte`.
fn byte_is(bytes: &[u8], at: usize, byte: u8) -> (is: bool)
    ensures
        is == has_byte(bytes@, at as int, byte),
{
    at < bytes.len() && bytes[at] == byte
}

/// Whether there is a hexadecimal digit at index `at`.
fn hex_digit_at(bytes: &[u8], at: usize) -> (is: bool)
    ensures
        is == has_hex_digit(bytes@, at as int),
{
    at < bytes.len() && ((DIGIT_0 <= bytes[at] && bytes[at] <= DIGIT_9) || (LOWER_A <= bytes[at]
        && bytes[at] <= LOWER_F) || (UPPER_A <= bytes[at] && bytes[at] <= UPPER_F))
}

/// The number that the hexadecimal digit at index `at` stands for.
fn hex_digit(bytes: &[u8], at: usize) -> (value: u8)
    requires
        has_hex_digit(bytes@, at as int),
    ensures
        value == hex_digit_value(bytes@[at as int]),
        value <= 15,
{
    let byte = bytes[at];
    if DIGIT_0 <= byte && byte <= DIGIT_9 {
        byte - DIGIT_0
    } else if LOWER_A <= byte && byte <= LOWER_F {
        byte - LOWER_A + 10
    } else {
        byte - UPPER_A + 10
    }
}

/// The byte that the two hexadecimal digits at index `at` spell.
fn hex_pair(bytes: &[u8], at: usize) -> (value: u8)
    requires
        has_hex_digit(bytes@, at as int),
        has_hex_digit(bytes@, at as int + 1),
    ensures
        value == hex_pair_value(bytes@, at as int),
{
    let len = bytes.len();
    assert(at + 1 < len);
    hex_digit(bytes, at) * 16 + hex_digit(bytes, at + 1)
}

/// The number of bytes of the mark that starts a hexadecimal colour.
fn hex_mark_length(bytes: &[u8]) -> (mark: usize)
    ensures
        mark == hex_mark(bytes@),
        mark <= 2,
{
    if byte_is(bytes, 0, HASH) {
        1
    } else if byte_is(bytes, 0, DIGIT_0) && byte_is(bytes, 1, LOWER_X) {
        2
    } else {
        0
    }
}

/// The number of hexadecimal digits from index `from` on, as far as `limit`
/// of them.
fn count_hex_digits(bytes: &[u8], from: usize, limit: usize) -> (count: usize)
    requires
        from <= 2,
        limit <= 9,
    ensures
        count <= limit,
        forall|k: int| from <= k < from + count ==> has_hex_digit(bytes@, k),
        count < limit ==> !has_hex_digit(bytes@, from + count),
{
    let mut count: usize = 0;
    while count < limit && hex_digit_at(bytes, from + count)
        invariant
            from <= 2,
            limit <= 9,
            count <= limit,
            forall|k: int| from <= k < from + count ==> has_hex_digit(bytes@, k),
        decreases limit - count,
    {
        count += 1;
    }
    count
}

/// Reads `rgb(r, g, b)` at the start of `input`.
pub fn rgb_numeric(input: &[u8]) -> (parsed: Result<(usize, Color), ParseError>)
    ensures
        agrees(parsed, rgb_numeric_spec(input@)),
        parsed matches Ok((taken, _)) ==> 0 < taken <= input@.len(),
{
    let bytes = input;
    if !(byte_is(bytes, 0, LOWER_R) && byte_is(bytes, 1, LOWER_G) && byte_is(bytes, 2, LOWER_B)
        && byte_is(bytes, 3, OPEN)) {
        return Err(ParseError::NoMatch);
    }
    let (at_g, r) = match channel_and(bytes, 4, COMMA) {
        Some(found) => found,
        None => { return Err(ParseError::Malformed); },
    };
    let (at_b, g) = match channel_and(bytes, at_g, COMMA) {
        Some(found) => found,
        None => { return Err(ParseError::Malformed); },
    };
    let (end, b) = match channel_and(bytes, at_b, CLOSE) {
        Some(found) => found,
        None => { return Err(ParseError::Malformed); },
    };
    Ok((end, Color::RGB(r, g, b)))
}

/// Reads `rgba(r, g, b, a)` at the start of `input`.
pub fn rgba_numeric(input: &[u8]) -> (parsed: Result<(usize, Color), ParseError>)
    ensures
        agrees(parsed, rgba_numeric_spec(input@)),
        parsed matches Ok((taken, _)) ==> 0 < taken <= input@.len(),
{
    let bytes = input;
    if !(byte_is(bytes, 0, LOWER_R) && byte_is(bytes, 1, LOWER_G) && byte_is(bytes, 2, LOWER_B)
        && byte_is(bytes, 3, LOWER_A) && byte_is(bytes, 4, OPEN)) {
        return Err(ParseError::NoMatch);
    }
    let (at_g, r) = match channel_and(bytes, 5, COMMA) {
        Some(found) => found,
        None => { return Err(ParseError::Malformed); },
    };
    let (at_b, g) = match channel_and(bytes, at_g, COMMA) {
        Some(found) => found,
        None => { return Err(ParseError::Malformed); },
    };
    let (at_a, b) = match channel_and(bytes, at_b, COMMA) {
        Some(found) => found,
        None => { return Err(ParseError::Malformed); },
    };
    let (end, a) = match channel_and(bytes, at_a, CLOSE) {
        Some(found) => found,
        None => { return Err(ParseError::Malformed); },
    };
    Ok((end, Color::RGBA(r, g, b, a)))
}

/// Reads a colour in brackets at the start of `input`, with or without
/// alpha.
pub fn color_numeric(input: &[u8]) -> (parsed: Result<(usize, Color), ParseError>)
    ensures
        agrees(parsed, color_numeric_spec(input@)),
        parsed matches Ok((taken, _)) ==> 0 < taken <= input@.len(),
{
    match rgb_numeric(input) {
        Err(ParseError::NoMatch) => rgba_numeric(input),
        parsed => parsed,
    }
}

/// Reads `#rrggbb` or `#rrggbbaa` at the start of `input`, or the same
/// behind `0x`.
pub fn color_hex(input: &[u8]) -> (parsed: Result<(usize, Color), ParseError>)
    ensures
        agrees(parsed, color_hex_spec(input@)),
        parsed matches Ok((taken, _)) ==> 0 < taken <= input@.len(),
{
    let bytes = input;
    let mark = hex_mark_length(bytes);
    if mark == 0 {
        return Err(ParseError::NoMatch);
    }
    let digits = count_hex_digits(bytes, mark, 9);
    if digits == 6 {
        assert(has_hex_digit(bytes@, mark + 5));
        Ok(
            (
                mark + 6,
                Color::RGB(
                    hex_pair(bytes, mark),
                    hex_pair(bytes, mark + 2),
                    hex_pair(bytes, mark + 4),
                ),
            ),
        )
    } else if digits == 8 {
        assert(has_hex_digit(bytes@, mark + 7));
        Ok(
            (
                mark + 8,
                Color::RGBA(
                    hex_pair(bytes, mark),
                    hex_pair(bytes, mark + 2),
                    hex_pair(bytes, mark + 4),
                    hex_pair(bytes, mark + 6),
                ),
            ),
        )
    } else {
        Err(ParseError::NoMatch)
    }
}

/// Reads `#rgb` at the start of `input`, or the same behind `0x`.
pub fn rgb_hex_short(input: &[u8]) -> (parsed: Result<(usize, Color), ParseError>)
    ensures
        agrees(parsed, rgb_hex_short_spec(input@)),
        parsed matches Ok((taken, _)) ==> 0 < taken <= input@.len(),
{
    let bytes = input;
    let mark = hex_mark_length(bytes);
    if mark == 0 {
        return Err(ParseError::NoMatch);
    }
    let digits = count_hex_digits(bytes, mark, 4);
    if digits == 3 {
        assert(has_hex_digit(bytes@, mark + 2));
        Ok(
            (
                mark + 3,
                Color::RGB(
                    hex_digit(bytes, mark) * 17,
                    hex_digit(bytes, mark + 1) * 17,
                    hex_digit(bytes, mark + 2) * 17,
                ),
            ),
        )
    } else {
        Err(ParseError::NoMatch)
    }
}

/// Reads a colour at the start of `input`, in any of its spellings.
pub fn color(input: &[u8]) -> (parsed: Result<(usize, Color), ParseError>)
    ensures
        agrees(parsed, color_spec(input@)),
        parsed matches Ok((taken, _)) ==> 0 < taken <= input@.len(),
{
    let long = color_hex(input);
    if long.is_ok() {
        return long;
    }
    let short = rgb_hex_short(input);
    if short.is_ok() {
        return short;
    }
    color_numeric(input)
}

/// An input that is one colour from its first byte to its last.
pub open spec fn whole_color_spec(input: Seq<u8>) -> Result<Color, ParseError> {
    match color_spec(input) {
        Ok((end, color)) => if end == input.len() {
            Ok(color)
        } else {
            Err(ParseError::NoMatch)
        },
        Err(error) => Err(error),
    }
}

/// Reads `input` as one colour and nothing else.
pub fn whole_color(input: &[u8]) -> (parsed: Result<Color, ParseError>)
    ensures
        parsed == whole_color_spec(input@),
{
    match color(input) {
        Ok((end, color)) => {
            if end == input.len() {
                Ok(color)
            } else {
                Err(ParseError::NoMatch)
            }
        },
        Err(error) => Err(error),
    }
}

impl ParseError {
    /// What went wrong, in words.
    pub open spec fn message_spec(self) -> Seq<char> {
        match self {
            ParseError::NoMatch => "not a color"@,
            ParseError::Malformed => "malformed rgb() or rgba() color"@,
        }
    }

    /// What went wrong, in words.
    pub fn message(&self) -> (text: String)
        ensures
            text@ == self.message_spec(),
    {
        match self {
            ParseError::NoMatch => "not a color".to_owned(),
            ParseError::Malformed => "malformed rgb() or rgba() color".to_owned(),
        }
    }
}

/// What reading a string as a colour gives: the colour that the whole
/// string spells, or the words for why it spells none.
pub open spec fn from_str_outcome(input: Seq<u8>, parsed: Result<Color, String>) -> bool {
    match whole_color_spec(input) {
        Ok(color) => parsed == Ok::<Color, String>(color),
        Err(error) => parsed matches Err(text) && text@ == error.message_spec(),
    }
}

impl core::str::FromStr for Color {
    type Err = String;

    /// Reads a string as one colour and nothing else.
    fn from_str(s: &str) -> (parsed: Result<Self, Self::Err>)
        ensures
            from_str_outcome(s.spec_bytes(), parsed),
    {
        match whole_color(s.as_bytes()) {
            Ok(color) => Ok(color),
            Err(error) => Err(error.message()),
        }
    }
}

/// What `nom::number::complete::float` reads at the start of an input: the
/// number of bytes that it leaves behind the number, and the bits of the
/// single that it gives.
pub uninterp spec fn float_literal(input: Seq<u8>) -> Option<(nat, u32)>;

/// `nom::number::complete::float` on bytes: a decimal number with an
/// optional sign, fraction and exponent, or one of `nan`, `inf` and
/// `infinity`, read as a single. What is left behind the number is the end
/// of the input.
#[verifier::external_body]
fn read_float(input: &[u8]) -> (read: Option<(usize, u32)>)
    ensures
        read matches Some((left, bits)) ==> left <= input@.len() && float_literal(input@) == Some(
            (left as nat, bits),
        ),
        read is None ==> float_literal(input@) is None,
{
    nom::number::complete::float::<&[u8], nom::error::Error<&[u8]>>(input).ok().map(
        |(rest, value)| (rest.len(), value.to_bits()),
    )
}

/// A piece of a document: a run of text from byte `start` up to byte `end`,
/// or a colour.
#[derive(Clone, Copy, Debug, PartialEq, Eq, Structural)]
pub enum TextElement {
    Text { start: usize, end: usize },
    Color(Color),
}

/// The input from byte `from` on.
pub open spec fn tail(input: Seq<u8>, from: int) -> Seq<u8> {
    input.subrange(from, input.len() as int)
}

/// The bytes of `;fill-opacity:`.
pub open spec fn fill_opacity_tag() -> Seq<u8> {
    seq![
        0x3bu8,
        0x66u8,
        0x69u8,
        0x6cu8,
        0x6cu8,
        0x2du8,
        0x6fu8,
        0x70u8,
        0x61u8,
        0x63u8,
        0x69u8,
        0x74u8,
        0x79u8,
        0x3au8,
    ]
}

/// `;fill-opacity:` and a number at the start of the input. Gives the
/// number of bytes taken and the bits of the number as a single.
pub open spec fn fill_opacity_spec(input: Seq<u8>) -> Option<(int, u32)> {
    if input.len() < 14 || input.subrange(0, 14) != fill_opacity_tag() {
        None
    } else {
        match float_literal(tail(input, 14)) {
            Some((left, bits)) => Some((input.len() - left, bits)),
            None => None,
        }
    }
}

/// A colour at the start of the input, with the opacity behind it where
/// there is one. The opacity becomes the alpha of a colour that has none.
pub open spec fn color_with_fill_opacity_spec(input: Seq<u8>) -> Result<(int, Color), ParseError> {
    match color_spec(input) {
        Err(error) => Err(error),
        Ok((taken, color)) => match fill_opacity_spec(tail(input, taken)) {
            Some((more, bits)) => Ok(
                (
                    taken + more,
                    Color::RGBA(
                        color.r_spec(),
                        color.g_spec(),
                        color.b_spec(),
                        match color.a_spec() {
                            Some(own) => own,
                            None => opacity_alpha_spec(bits),
                        },
                    ),
                ),
            ),
            None => Ok((taken, color)),
        },
    }
}

/// The first index at or behind `from` at which something starts like a
/// colour (the length of the input where nothing does).
pub open spec fn text_end(input: Seq<u8>, from: int) -> int
    decreases input.len() - from,
{
    if 0 <= from < input.len() && color_spec(tail(input, from)) == Err::<
        (int, Color),
        ParseError,
    >(ParseError::NoMatch) {
        text_end(input, from + 1)
    } else {
        from
    }
}

/// Whether a malformed colour starts at index `at`.
pub open spec fn malformed_at(input: Seq<u8>, at: int) -> bool {
    0 <= at < input.len() && color_spec(tail(input, at)) == Err::<(int, Color), ParseError>(
        ParseError::Malformed,
    )
}

/// The run of text at the start of the input: everything before the first
/// colour. Gives its length, which is not zero.
pub open spec fn non_color_text_spec(input: Seq<u8>) -> Result<int, ParseError> {
    let end = text_end(input, 0);
    if malformed_at(input, end) {
        Err(ParseError::Malformed)
    } else if end == 0 {
        Err(ParseError::NoMatch)
    } else {
        Ok(end)
    }
}

/// `first` in front of the elements of `rest`, where there are any.
pub open spec fn prepend(first: TextElement, rest: Result<Seq<TextElement>, ParseError>) -> Result<
    Seq<TextElement>,
    ParseError,
> {
    match rest {
        Ok(elements) => Ok(seq![first] + elements),
        Err(error) => Err(error),
    }
}

/// The pieces of a document from byte `from` on: colours, and the runs of
/// text between them.
pub open spec fn elements_from(input: Seq<u8>, from: int) -> Result<Seq<TextElement>, ParseError>
    decreases input.len() - from,
{
    if from < 0 || from >= input.len() {
        Ok(Seq::empty())
    } else {
        match color_with_fill_opacity_spec(tail(input, from)) {
            Ok((taken, color)) => if 0 < taken <= input.len() - from {
                prepend(TextElement::Color(color), elements_from(input, from + taken))
            } else {
                Ok(Seq::empty())
            },
            Err(ParseError::Malformed) => Err(ParseError::Malformed),
            Err(ParseError::NoMatch) => {
                let end = text_end(input, from);
                if malformed_at(input, end) {
                    Err(ParseError::Malformed)
                } else if from < end <= input.len() {
                    prepend(
                        TextElement::Text { start: from as usize, end: end as usize },
                        elements_from(input, end),
                    )
                } else {
                    Ok(Seq::empty())
                }
            },
        }
    }
}

/// The pieces of a whole document.
pub open spec fn xml_text_spec(input: Seq<u8>) -> Result<Seq<TextElement>, ParseError> {
    elements_from(input, 0)
}

/// `prefix` in front of the elements of `rest`, where there are any.
pub open spec fn with_prefix(
    prefix: Seq<TextElement>,
    rest: Result<Seq<TextElement>, ParseError>,
) -> Result<Seq<TextElement>, ParseError> {
    match rest {
        Ok(elements) => Ok(prefix + elements),
        Err(error) => Err(error),
    }
}

/// A run of text ends behind its start and inside the input.
proof fn lemma_text_end_bounds(input: Seq<u8>, from: int)
    requires
        0 <= from <= input.len(),
    ensures
        from <= text_end(input, from) <= input.len(),
    decreases input.len() - from,
{
    if from < input.len() && color_spec(tail(input, from)) == Err::<(int, Color), ParseError>(
        ParseError::NoMatch,
    ) {
        lemma_text_end_bounds(input, from + 1);
    }
}

/// Reads `;fill-opacity:` and a number at the start of `input`. Gives the
/// number of bytes taken and the bits of the number as a single.
pub fn fill_opacity(input: &[u8]) -> (found: Option<(usize, u32)>)
    ensures
        found matches Some((taken, bits)) ==> 14 <= taken <= input@.len() && fill_opacity_spec(
            input@,
        ) == Some((taken as int, bits)),
        found is None ==> fill_opacity_spec(input@) is None,
{
    let len = input.len();
    if len < 14 {
        return None;
    }
    let tag: [u8; 14] = [
        0x3b,
        0x66,
        0x69,
        0x6c,
        0x6c,
        0x2d,
        0x6f,
        0x70,
        0x61,
        0x63,
        0x69,
        0x74,
        0x79,
        0x3a,
    ];
    let mut i: usize = 0;
    while i < 14
        invariant
            i <= 14 <= len == input@.len(),
            tag@ == fill_opacity_tag(),
            forall|k: int| 0 <= k < i ==> input@[k] == tag@[k],
        decreases 14 - i,
    {
        if input[i] != tag[i] {
            assert(input@.subrange(0, 14)[i as int] != fill_opacity_tag()[i as int]);
            return None;
        }
        i += 1;
    }
    assert(input@.subrange(0, 14) =~= fill_opacity_tag());
    match read_float(slice_subrange(input, 14, len)) {
        Some((left, bits)) => Some((len - left, bits)),
        None => None,
    }
}

/// Reads a colour at the start of `input`, and the opacity behind it where
/// there is one.
pub fn color_with_fill_opacity(input: &[u8]) -> (parsed: Result<(usize, Color), ParseError>)
    ensures
        agrees(parsed, color_with_fill_opacity_spec(input@)),
        parsed matches Ok((taken, _)) ==> 0 < taken <= input@.len(),
{
    match color(input) {
        Err(error) => Err(error),
        Ok((taken, color)) => {
            match fill_opacity(slice_subrange(input, taken, input.len())) {
                Some((more, bits)) => Ok((taken + more, color.with_opacity(bits))),
                None => Ok((taken, color)),
            }
        },
    }
}

/// Finds where the run of text that starts at byte `from` ends.
fn scan_text(input: &[u8], from: usize) -> (end: Result<usize, ParseError>)
    requires
        from <= input@.len(),
    ensures
        end matches Ok(at) ==> at == text_end(input@, from as int) && from <= at <= input@.len()
            && !malformed_at(input@, at as int),
        end matches Err(error) ==> error == ParseError::Malformed && malformed_at(
            input@,
            text_end(input@, from as int),
        ),
{
    let len = input.len();
    let mut i = from;
    while i < len
        invariant
            from <= i <= len == input@.len(),
            text_end(input@, from as int) == text_end(input@, i as int),
        decreases len - i,
    {
        match color(slice_subrange(input, i, len)) {
            Err(ParseError::NoMatch) => {
                i += 1;
            },
            Err(ParseError::Malformed) => {
                return Err(ParseError::Malformed);
            },
            Ok(_) => {
                return Ok(i);
            },
        }
    }
    Ok(i)
}

/// Reads the run of text at the start of `input`, up to the first colour,
/// and gives its length. There is none where the input is empty or starts
/// with a colour.
pub fn non_color_text(input: &[u8]) -> (parsed: Result<usize, ParseError>)
    ensures
        parsed matches Ok(taken) ==> non_color_text_spec(input@) == Ok::<int, ParseError>(
            taken as int,
        ) && 0 < taken <= input@.len(),
        parsed matches Err(error) ==> non_color_text_spec(input@) == Err::<int, ParseError>(error),
{
    match scan_text(input, 0) {
        Err(error) => Err(error),
        Ok(end) => if end == 0 {
            Err(ParseError::NoMatch)
        } else {
            Ok(end)
        },
    }
}

/// Splits `input` into its colours and the runs of text between them. The
/// whole input is taken.
pub fn text_with_colors(input: &[u8]) -> (parsed: Result<(usize, Vec<TextElement>), ParseError>)
    ensures
        parsed matches Ok((taken, elements)) ==> taken == input@.len() && xml_text_spec(input@)
            == Ok::<Seq<TextElement>, ParseError>(elements@),
        parsed matches Err(error) ==> xml_text_spec(input@) == Err::<
            Seq<TextElement>,
            ParseError,
        >(error),
{
    let len = input.len();
    let mut elements: Vec<TextElement> = Vec::new();
    let mut at: usize = 0;
    assert(with_prefix(elements@, elements_from(input@, 0)) == elements_from(input@, 0)) by {
        match elements_from(input@, 0) {
            Ok(rest) => {
                assert(elements@ + rest =~= rest);
            },
            Err(_) => {},
        }
    }
    while at < len
        invariant
            at <= len == input@.len(),
            xml_text_spec(input@) == with_prefix(elements@, elements_from(input@, at as int)),
        decreases len - at,
    {
        let ghost before = elements@;
        match color_with_fill_opacity(slice_subrange(input, at, len)) {
            Ok((taken, color)) => {
                elements.push(TextElement::Color(color));
                proof {
                    lemma_prefix_grows(
                        before,
                        TextElement::Color(color),
                        elements_from(input@, at + taken),
                    );
                }
                at += taken;
            },
            Err(ParseError::Malformed) => {
                return Err(ParseError::Malformed);
            },
            Err(ParseError::NoMatch) => {
                proof {
                    lemma_text_end_bounds(input@, at as int + 1);
                }
                match scan_text(input, at) {
                    Err(error) => {
                        return Err(error);
                    },
                    Ok(end) => {
                        let text = TextElement::Text { start: at, end };
                        elements.push(text);
                        proof {
                            lemma_prefix_grows(before, text, elements_from(input@, end as int));
                        }
                        at = end;
                    },
                }
            },
        }
    }
    assert(elements@ + Seq::<TextElement>::empty() =~= elements@);
    Ok((at, elements))
}

/// A prefix with one more element in front of what follows is the prefix in
/// front of that element and what follows.
proof fn lemma_prefix_grows(
    prefix: Seq<TextElement>,
    next: TextElement,
    rest: Result<Seq<TextElement>, ParseError>,
)
    ensures
        with_prefix(prefix, prepend(next, rest)) == with_prefix(prefix.push(next), rest),
{
    match rest {
        Ok(elements) => {
            assert(prefix + (seq![next] + elements) =~= prefix.push(next) + elements);
        },
        Err(_) => {},
    }
}

/// Splits a document into its colours and the runs of text between them.
/// A document is refused only where it holds a malformed colour.
pub fn xml_text(input: &[u8]) -> (parsed: Result<Vec<TextElement>, ParseError>)
    ensures
        parsed matches Ok(elements) ==> xml_text_spec(input@) == Ok::<
            Seq<TextElement>,
            ParseError,
        >(elements@),
        parsed matches Err(error) ==> error == ParseError::Malformed && xml_text_spec(input@)
            == Err::<Seq<TextElement>, ParseError>(error),
{
    match text_with_colors(input) {
        Ok((_, elements)) => Ok(elements),
        Err(error) => {
            proof {
                lemma_only_malformed_fails(input@, 0);
            }
            Err(error)
        },
    }
}

/// Splitting a document fails only on a malformed colour.
proof fn lemma_only_malformed_fails(input: Seq<u8>, from: int)
    ensures
        elements_from(input, from) matches Err(error) ==> error == ParseError::Malformed,
    decreases input.len() - from,
{
    if 0 <= from < input.len() {
        match color_with_fill_opacity_spec(tail(input, from)) {
            Ok((taken, color)) => {
                if 0 < taken <= input.len() - from {
                    lemma_only_malformed_fails(input, from + taken);
                }
            },
            Err(ParseError::Malformed) => {},
            Err(ParseError::NoMatch) => {
                let end = text_end(input, from);
                if !malformed_at(input, end) && from < end <= input.len() {
                    lemma_only_malformed_fails(input, end);
                }
            },
        }
    }
}

} // verus!
