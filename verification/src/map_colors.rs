//! Listing the colours of a document, and replacing them by a colour map.
//!
//! The two marker colours are never replaced: they are no artwork.

use vstd::prelude::*;

use crate::color::Color;
use crate::parser::{xml_text, xml_text_spec, ParseError, TextElement};

verus! {

/// What a render task asks of the colour map.
#[derive(Clone, Copy, Debug, PartialEq, Eq, Structural)]
pub struct RenderOptions {
    /// Every colour of the map must occur in the document.
    pub all_input_colors: bool,
    /// Every colour of the document must occur in the map.
    pub all_svg_colors: bool,
    /// Alpha values are read with the colours.
    pub include_alpha: bool,
}

/// Why the colours of a document could not be replaced.
#[derive(Debug, PartialEq, Eq)]
pub enum MapError {
    /// The document holds a malformed colour.
    Parse(ParseError),
    /// This colour of the document is not in the map.
    SvgColorNotInMap(Color),
    /// These colours of the map are not in the document.
    ColorsNotFound(Vec<Color>),
}

/// The colours of the elements, each once, in the order in which they first
/// occur.
pub open spec fn distinct_colors(elements: Seq<TextElement>) -> Seq<Color>
    decreases elements.len(),
{
    if elements.len() == 0 {
        Seq::empty()
    } else {
        let before = distinct_colors(elements.drop_last());
        match elements.last() {
            TextElement::Color(color) => if before.contains(color) {
                before
            } else {
                before.push(color)
            },
            TextElement::Text { .. } => before,
        }
    }
}

/// The colour that the entries of the map from index `from` on give for
/// `color`: that of the first entry for it.
pub open spec fn lookup_from(map: Seq<(Color, Color)>, color: Color, from: int) -> Option<Color>
    decreases map.len() - from,
{
    if from < 0 || from >= map.len() {
        None
    } else if map[from].0 == color {
        Some(map[from].1)
    } else {
        lookup_from(map, color, from + 1)
    }
}

/// The colour that the map gives for `color`.
pub open spec fn lookup(map: Seq<(Color, Color)>, color: Color) -> Option<Color> {
    lookup_from(map, color, 0)
}

/// Whether `color` is a colour of the document that the map is asked about:
/// it occurs among the elements and is no marker colour.
pub open spec fn occurs(elements: Seq<TextElement>, color: Color) -> bool {
    !color.is_reaper_reserved_spec() && elements.contains(TextElement::Color(color))
}

/// Whether the element is a colour for which the map has no entry, though it
/// is no marker colour.
pub open spec fn is_unmapped(map: Seq<(Color, Color)>, element: TextElement) -> bool {
    match element {
        TextElement::Color(color) => !color.is_reaper_reserved_spec() && lookup(map, color)
            is None,
        TextElement::Text { .. } => false,
    }
}

/// The element with its colour replaced by the map. Text, marker colours
/// and colours without an entry stay as they are.
pub open spec fn replaced(map: Seq<(Color, Color)>, element: TextElement) -> TextElement {
    match element {
        TextElement::Color(color) => if color.is_reaper_reserved_spec() {
            element
        } else {
            match lookup(map, color) {
                Some(new_color) => TextElement::Color(new_color),
                None => element,
            }
        },
        TextElement::Text { .. } => element,
    }
}

/// The index of the first element at or behind `from` for which the map
/// has no entry, or the number of elements where it has one for each.
pub open spec fn first_unmapped(map: Seq<(Color, Color)>, elements: Seq<TextElement>, from: int) -> int
    decreases elements.len() - from,
{
    if from < 0 || from >= elements.len() || is_unmapped(map, elements[from]) {
        from
    } else {
        first_unmapped(map, elements, from + 1)
    }
}

/// The colours that the map has an entry for and that do not occur in the
/// document, in the order of the map.
pub open spec fn unused_colors(map: Seq<(Color, Color)>, elements: Seq<TextElement>) -> Seq<Color>
    decreases map.len(),
{
    if map.len() == 0 {
        Seq::empty()
    } else {
        let before = unused_colors(map.drop_last(), elements);
        if occurs(elements, map.last().0) {
            before
        } else {
            before.push(map.last().0)
        }
    }
}

/// The elements with their colours replaced by the map.
pub open spec fn all_replaced(map: Seq<(Color, Color)>, elements: Seq<TextElement>) -> Seq<
    TextElement,
> {
    Seq::new(elements.len(), |i: int| replaced(map, elements[i]))
}

/// What replacing the colours of a document gives.
///
/// Where every colour of the document must be in the map, the first one
/// that is not is the error. Else, where every colour of the map must be in
/// the document, those that are not are the error. Else the elements come
/// back with their colours replaced.
pub open spec fn map_outcome(
    map: Seq<(Color, Color)>,
    elements: Seq<TextElement>,
    opt: RenderOptions,
    mapped: Result<Vec<TextElement>, MapError>,
) -> bool {
    let unmapped = first_unmapped(map, elements, 0);
    if opt.all_svg_colors && unmapped < elements.len() {
        mapped matches Err(MapError::SvgColorNotInMap(color)) && elements[unmapped]
            == TextElement::Color(color)
    } else if opt.all_input_colors && unused_colors(map, elements).len() > 0 {
        mapped matches Err(MapError::ColorsNotFound(unused)) && unused@ == unused_colors(
            map,
            elements,
        )
    } else {
        mapped matches Ok(out) && out@ == all_replaced(map, elements)
    }
}

/// Lists the colours of a document, each once, in the order in which they
/// first occur.
pub fn get_colors(xml: &[u8]) -> (colors: Result<Vec<Color>, ParseError>)
    ensures
        colors matches Ok(found) ==> xml_text_spec(xml@) matches Ok(elements) && found@
            == distinct_colors(elements) && found@.no_duplicates(),
        colors matches Err(error) ==> xml_text_spec(xml@) == Err::<Seq<TextElement>, ParseError>(
            error,
        ),
{
    let elements = match xml_text(xml) {
        Ok(elements) => elements,
        Err(error) => { return Err(error); },
    };
    let mut result: Vec<Color> = Vec::new();
    let mut i: usize = 0;
    while i < elements.len()
        invariant
            i <= elements@.len(),
            result@ == distinct_colors(elements@.take(i as int)),
            result@.no_duplicates(),
        decreases elements@.len() - i,
    {
        proof {
            assert(elements@.take(i + 1).drop_last() =~= elements@.take(i as int));
        }
        match elements[i] {
            TextElement::Color(color) => {
                if !contains_color(&result, color) {
                    result.push(color);
                }
            },
            TextElement::Text { .. } => {},
        }
        i += 1;
    }
    assert(elements@.take(i as int) =~= elements@);
    Ok(result)
}

/// Whether `colors` holds `color`.
fn contains_color(colors: &Vec<Color>, color: Color) -> (found: bool)
    ensures
        found == colors@.contains(color),
{
    let mut i: usize = 0;
    while i < colors.len()
        invariant
            i <= colors@.len(),
            forall|k: int| 0 <= k < i ==> colors@[k] != color,
        decreases colors@.len() - i,
    {
        if colors[i] == color {
            return true;
        }
        i += 1;
    }
    false
}

/// Looks `color` up in the map.
fn find_color(map: &[(Color, Color)], color: Color) -> (found: Option<Color>)
    ensures
        found == lookup(map@, color),
{
    let mut i: usize = 0;
    while i < map.len()
        invariant
            i <= map@.len(),
            lookup(map@, color) == lookup_from(map@, color, i as int),
        decreases map@.len() - i,
    {
        if map[i].0 == color {
            return Some(map[i].1);
        }
        i += 1;
    }
    None
}

/// Whether `color` occurs in the document and is no marker colour.
fn color_occurs(elements: &Vec<TextElement>, color: Color) -> (found: bool)
    ensures
        found == occurs(elements@, color),
{
    if color.is_reaper_reserved() {
        return false;
    }
    let mut i: usize = 0;
    while i < elements.len()
        invariant
            i <= elements@.len(),
            !color.is_reaper_reserved_spec(),
            forall|k: int| 0 <= k < i ==> elements@[k] != TextElement::Color(color),
        decreases elements@.len() - i,
    {
        if elements[i] == TextElement::Color(color) {
            assert(elements@[i as int] == TextElement::Color(color));
            return true;
        }
        i += 1;
    }
    false
}

/// Replaces the colours of a document by those that `color_map` gives for
/// them. The marker colours and, unless `opt` forbids it, colours without
/// an entry stay as they are.
pub fn map_colors(xml: &[u8], color_map: &[(Color, Color)], opt: &RenderOptions) -> (mapped: Result<
    Vec<TextElement>,
    MapError,
>)
    ensures
        xml_text_spec(xml@) matches Err(error) ==> mapped == Err::<Vec<TextElement>, MapError>(
            MapError::Parse(error),
        ),
        xml_text_spec(xml@) matches Ok(elements) ==> map_outcome(
            color_map@,
            elements,
            *opt,
            mapped,
        ),
{
    let elements = match xml_text(xml) {
        Ok(elements) => elements,
        Err(error) => { return Err(MapError::Parse(error)); },
    };
    let mut out: Vec<TextElement> = Vec::new();
    let mut i: usize = 0;
    while i < elements.len()
        invariant
            i <= elements@.len(),
            xml_text_spec(xml@) == Ok::<Seq<TextElement>, ParseError>(elements@),
            out@ == all_replaced(color_map@, elements@.take(i as int)),
            first_unmapped(color_map@, elements@, 0) == first_unmapped(
                color_map@,
                elements@,
                i as int,
            ) || !opt.all_svg_colors,
        decreases elements@.len() - i,
    {
        let element = elements[i];
        let new_element = match element {
            TextElement::Text { .. } => element,
            TextElement::Color(old_color) => {
                if old_color.is_reaper_reserved() {
                    element
                } else {
                    match find_color(color_map, old_color) {
                        Some(new_color) => TextElement::Color(new_color),
                        None => {
                            if opt.all_svg_colors {
                                return Err(MapError::SvgColorNotInMap(old_color));
                            }
                            element
                        },
                    }
                }
            },
        };
        out.push(new_element);
        i += 1;
        assert(out@ =~= all_replaced(color_map@, elements@.take(i as int)));
    }
    assert(elements@.take(i as int) =~= elements@);
    if opt.all_input_colors {
        let mut unused: Vec<Color> = Vec::new();
        let mut k: usize = 0;
        while k < color_map.len()
            invariant
                k <= color_map@.len(),
                unused@ == unused_colors(color_map@.take(k as int), elements@),
            decreases color_map@.len() - k,
        {
            proof {
                assert(color_map@.take(k + 1).drop_last() =~= color_map@.take(k as int));
            }
            if !color_occurs(&elements, color_map[k].0) {
                unused.push(color_map[k].0);
            }
            k += 1;
        }
        assert(color_map@.take(k as int) =~= color_map@);
        if unused.len() != 0 {
            return Err(MapError::ColorsNotFound(unused));
        }
    }
    Ok(out)
}

} // verus!
