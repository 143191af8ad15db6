//! Scanning one edge of an image for its marker run.
//!
//! An edge is handed over as a strip of pixel classes, outermost pixel first.
//! A strip carries a border when it is a run of one marker colour followed by
//! nothing but transparent pixels; the width it encodes is the index of the
//! last pixel of the run.

use vstd::prelude::*;

use crate::pixel::PixelClass;

verus! {

/// Whether a class is one of the two marker colours.
pub open spec fn is_marker(class: PixelClass) -> bool {
    class == PixelClass::Yellow || class == PixelClass::Pink
}

/// The first index at or behind `from` whose pixel is not of class `class`
/// (the length of the strip where there is none).
pub open spec fn run_end(strip: Seq<PixelClass>, class: PixelClass, from: int) -> int
    decreases strip.len() - from,
{
    if 0 <= from < strip.len() && strip[from] == class {
        run_end(strip, class, from + 1)
    } else {
        from
    }
}

/// Whether every pixel from index `from` on is transparent.
pub open spec fn transparent_from(strip: Seq<PixelClass>, from: int) -> bool {
    forall|i: int| from <= i < strip.len() ==> strip[i] == PixelClass::Transparent
}

/// The width that a marker run of `run` pixels encodes in a strip of `len`
/// pixels: one less than its length, and never more than `len - 2`.
pub open spec fn run_width(run: int, len: int) -> nat {
    if run - 1 <= len - 2 {
        (run - 1) as nat
    } else {
        (len - 2) as nat
    }
}

/// The widths (yellow, pink) that a strip encodes, or `None` where it
/// carries no border: it is shorter than three pixels, does not start with a
/// marker colour, or holds anything but transparent pixels behind its
/// leading run of that colour.
pub open spec fn scan_edge_spec(strip: Seq<PixelClass>) -> Option<(nat, nat)> {
    if strip.len() < 3 || !is_marker(strip[0]) {
        None
    } else {
        let run = run_end(strip, strip[0], 0);
        if !transparent_from(strip, run) {
            None
        } else if strip[0] == PixelClass::Yellow {
            Some((run_width(run, strip.len() as int), 0nat))
        } else {
            Some((0nat, run_width(run, strip.len() as int)))
        }
    }
}

/// Where a scan stands after the pixels it has read.
#[derive(Clone, Copy, Debug, PartialEq, Eq, Structural)]
pub enum ScanState {
    /// Nothing read yet.
    Start,
    /// Inside the leading run of yellow pixels.
    InYellow,
    /// Inside the leading run of pink pixels.
    InPink,
    /// Behind the run, among transparent pixels.
    Interior,
}

impl ScanState {
    /// The transition table of the scan: the state after one more pixel, or
    /// `None` where that pixel rules a border out.
    pub open spec fn after(self, class: PixelClass) -> Option<ScanState> {
        match (self, class) {
            (ScanState::Start, PixelClass::Yellow) => Some(ScanState::InYellow),
            (ScanState::Start, PixelClass::Pink) => Some(ScanState::InPink),
            (ScanState::InYellow, PixelClass::Yellow) => Some(ScanState::InYellow),
            (ScanState::InYellow, PixelClass::Transparent) => Some(ScanState::Interior),
            (ScanState::InPink, PixelClass::Pink) => Some(ScanState::InPink),
            (ScanState::InPink, PixelClass::Transparent) => Some(ScanState::Interior),
            (ScanState::Interior, PixelClass::Transparent) => Some(ScanState::Interior),
            _ => None,
        }
    }

    /// One step of the scan.
    pub fn step(self, class: PixelClass) -> (next: Option<ScanState>)
        ensures
            next == self.after(class),
    {
        match self {
            ScanState::Start => match class {
                PixelClass::Yellow => Some(ScanState::InYellow),
                PixelClass::Pink => Some(ScanState::InPink),
                _ => None,
            },
            ScanState::InYellow => match class {
                PixelClass::Yellow => Some(ScanState::InYellow),
                PixelClass::Transparent => Some(ScanState::Interior),
                _ => None,
            },
            ScanState::InPink => match class {
                PixelClass::Pink => Some(ScanState::InPink),
                PixelClass::Transparent => Some(ScanState::Interior),
                _ => None,
            },
            ScanState::Interior => match class {
                PixelClass::Transparent => Some(ScanState::Interior),
                _ => None,
            },
        }
    }
}

/// A run that holds only `class` up to `upto` ends where the run from `upto`
/// on ends.
pub proof fn lemma_run_end_skips(strip: Seq<PixelClass>, class: PixelClass, upto: int)
    requires
        0 <= upto <= strip.len(),
        forall|i: int| 0 <= i < upto ==> strip[i] == class,
    ensures
        run_end(strip, class, 0) == run_end(strip, class, upto),
    decreases upto,
{
    if upto > 0 {
        lemma_run_end_skips(strip, class, upto - 1);
    }
}

/// The leading run ends inside the strip, holds only `class`, and is
/// followed by a pixel of another class or by the end of the strip.
pub proof fn lemma_run_end_bounds(strip: Seq<PixelClass>, class: PixelClass, from: int)
    requires
        0 <= from <= strip.len(),
    ensures
        from <= run_end(strip, class, from) <= strip.len(),
        forall|i: int| from <= i < run_end(strip, class, from) ==> strip[i] == class,
        run_end(strip, class, from) < strip.len() ==> strip[run_end(strip, class, from)] != class,
    decreases strip.len() - from,
{
    if from < strip.len() && strip[from] == class {
        lemma_run_end_bounds(strip, class, from + 1);
    }
}

/// A strip that holds a pixel of class `Other` anywhere carries no border.
pub proof fn lemma_other_pixel_means_no_border(strip: Seq<PixelClass>, at: int)
    requires
        0 <= at < strip.len(),
        strip[at] == PixelClass::Other,
    ensures
        scan_edge_spec(strip) is None,
{
    if strip.len() >= 3 && is_marker(strip[0]) {
        let run = run_end(strip, strip[0], 0);
        lemma_run_end_bounds(strip, strip[0], 0);
        assert(run <= at);
        assert(!transparent_from(strip, run));
    }
}

/// A strip that carries a border is its leading marker run followed by
/// transparent pixels only, and encodes a width for that marker alone.
pub proof fn lemma_border_shape(strip: Seq<PixelClass>)
    requires
        scan_edge_spec(strip) is Some,
    ensures
        strip.len() >= 3,
        is_marker(strip[0]),
        ({
            let run = run_end(strip, strip[0], 0);
            let marker = strip[0];
            let (yellow, pink) = scan_edge_spec(strip)->0;
            &&& 1 <= run <= strip.len()
            &&& forall|i: int| 0 <= i < run ==> strip[i] == marker
            &&& forall|i: int| run <= i < strip.len() ==> strip[i] == PixelClass::Transparent
            &&& yellow <= strip.len() - 2
            &&& pink <= strip.len() - 2
            &&& strip[0] == PixelClass::Yellow ==> yellow == run_width(run, strip.len() as int)
                && pink == 0
            &&& strip[0] == PixelClass::Pink ==> pink == run_width(run, strip.len() as int)
                && yellow == 0
        }),
{
    lemma_run_end_bounds(strip, strip[0], 0);
    lemma_run_end_bounds(strip, strip[0], 1);
    assert(run_end(strip, strip[0], 0) == run_end(strip, strip[0], 1));
}

/// A strip that is `run` pixels of one marker followed by transparent pixels
/// only encodes the width of that run, for that marker alone.
pub proof fn lemma_marker_run_scans(strip: Seq<PixelClass>, marker: PixelClass, run: int)
    requires
        strip.len() >= 3,
        1 <= run <= strip.len(),
        is_marker(marker),
        forall|i: int| 0 <= i < run ==> strip[i] == marker,
        forall|i: int| run <= i < strip.len() ==> strip[i] == PixelClass::Transparent,
    ensures
        marker == PixelClass::Yellow ==> scan_edge_spec(strip) == Some(
            (run_width(run, strip.len() as int), 0nat),
        ),
        marker == PixelClass::Pink ==> scan_edge_spec(strip) == Some(
            (0nat, run_width(run, strip.len() as int)),
        ),
{
    assert(strip[0] == marker);
    lemma_run_end_skips(strip, marker, run);
    assert(run_end(strip, marker, run) == run);
}

/// Scans one edge and gives the widths (yellow, pink) that it encodes.
///
/// A strip of fewer than three pixels carries no border, and neither does
/// one that holds a pixel of class `Other`, wherever it stands.
pub fn scan_edge(strip: &[PixelClass]) -> (widths: Option<(u32, u32)>)
    requires
        strip@.len() <= u32::MAX,
    ensures
        widths matches Some((yellow, pink)) ==> scan_edge_spec(strip@) == Some(
            (yellow as nat, pink as nat),
        ),
        widths is None ==> scan_edge_spec(strip@) is None,
        strip@.len() < 3 ==> widths is None,
        (exists|i: int| 0 <= i < strip@.len() && strip@[i] == PixelClass::Other) ==> widths is None,
{
    proof {
        if exists|i: int| 0 <= i < strip@.len() && strip@[i] == PixelClass::Other {
            let at = choose|i: int| 0 <= i < strip@.len() && strip@[i] == PixelClass::Other;
            lemma_other_pixel_means_no_border(strip@, at);
        }
    }
    let n = strip.len();
    if n < 3 {
        return None;
    }
    let mut state = ScanState::Start;
    let mut yellow: u32 = 0;
    let mut pink: u32 = 0;
    let ghost mut run: int = 0;
    let mut i: usize = 0;
    while i < n
        invariant
            n == strip@.len(),
            3 <= n <= u32::MAX,
            i <= n,
            state == ScanState::Start <==> i == 0,
            state == ScanState::Start ==> yellow == 0 && pink == 0,
            state == ScanState::InYellow ==> {
                &&& yellow == i - 1
                &&& pink == 0
                &&& forall|j: int| 0 <= j < i ==> strip@[j] == PixelClass::Yellow
            },
            state == ScanState::InPink ==> {
                &&& pink == i - 1
                &&& yellow == 0
                &&& forall|j: int| 0 <= j < i ==> strip@[j] == PixelClass::Pink
            },
            state == ScanState::Interior ==> {
                &&& is_marker(strip@[0])
                &&& 1 <= run < i
                &&& run == run_end(strip@, strip@[0], 0)
                &&& forall|j: int| run <= j < i ==> strip@[j] == PixelClass::Transparent
                &&& strip@[0] == PixelClass::Yellow ==> yellow == run - 1 && pink == 0
                &&& strip@[0] == PixelClass::Pink ==> pink == run - 1 && yellow == 0
            },
        decreases n - i,
    {
        let class = strip[i];
        match state.step(class) {
            None => {
                proof {
                    if state == ScanState::InYellow || state == ScanState::InPink {
                        lemma_run_end_skips(strip@, strip@[0], i as int);
                        assert(run_end(strip@, strip@[0], i as int) == i);
                        assert(!transparent_from(strip@, i as int));
                    } else if state == ScanState::Interior {
                        assert(!transparent_from(strip@, run));
                    }
                }
                return None;
            },
            Some(next) => {
                proof {
                    if next == ScanState::Interior && state != ScanState::Interior {
                        lemma_run_end_skips(strip@, strip@[0], i as int);
                        assert(run_end(strip@, strip@[0], i as int) == i);
                        run = i as int;
                    }
                }
                if next == ScanState::InYellow {
                    yellow = i as u32;
                }
                if next == ScanState::InPink {
                    pink = i as u32;
                }
                state = next;
            },
        }
        i += 1;
    }
    proof {
        if state != ScanState::Interior {
            lemma_run_end_skips(strip@, strip@[0], n as int);
            assert(run_end(strip@, strip@[0], n as int) == n);
        }
    }
    let max_width = (n - 2) as u32;
    Some(
        (
            if yellow < max_width {
                yellow
            } else {
                max_width
            },
            if pink < max_width {
                pink
            } else {
                max_width
            },
        ),
    )
}

} // verus!
