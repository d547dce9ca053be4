//! Edge refinement by bisection: where along a grid edge the field crosses the iso-value.
//!
//! The search runs over the edge in units of one part in `EDGE_UNITS`, measured from the end
//! where the field is lower. The caller samples the field at the centre of the bracket and
//! reports whether it lies below the iso-value; the search decides which end of the bracket
//! moves, and when to stop.

use vstd::prelude::*;

verus! {

/// The number of halvings of a search.
pub const BISECTION_STEPS: u8 = 8;

/// The number of units into which an edge is divided: two to the power `BISECTION_STEPS`.
pub const EDGE_UNITS: u16 = 256;

/// The end of the bracket that moves to its centre.
#[derive(Clone, Copy, Debug, PartialEq, Eq, Structural)]
pub enum Side {
    /// The lower-field end: the field at the centre lies below the iso-value.
    Left,
    /// The higher-field end.
    Right,
}

/// A bracket on the edge, from `lo` to `hi`.
pub struct Bracket {
    pub lo: int,
    pub hi: int,
}

impl Bracket {
    /// The point at which the field is sampled next.
    pub open spec fn center(self) -> int {
        (self.lo + self.hi) / 2
    }

    /// The bracket after one halving: its lower end moves to the centre where the field
    /// there lies below the iso-value, else its upper end does.
    pub open spec fn halve(self, below: bool) -> Bracket {
        if below {
            Bracket { lo: self.center(), hi: self.hi }
        } else {
            Bracket { lo: self.lo, hi: self.center() }
        }
    }
}

/// The width of the bracket after `steps` halvings.
pub open spec fn bracket_width(steps: nat) -> int
    decreases steps,
{
    if steps == 0 {
        EDGE_UNITS as int
    } else {
        bracket_width((steps - 1) as nat) / 2
    }
}

/// The bracket after `steps` halvings over a field that lies below the iso-value exactly
/// at the points of the edge where `below` holds.
pub open spec fn bracket_after(below: spec_fn(int) -> bool, steps: nat) -> Bracket
    decreases steps,
{
    if steps == 0 {
        Bracket { lo: 0, hi: EDGE_UNITS as int }
    } else {
        let before = bracket_after(below, (steps - 1) as nat);
        before.halve(below(before.center()))
    }
}

/// The point that a whole search over such a field returns: the centre sampled last.
pub open spec fn located(below: spec_fn(int) -> bool) -> int {
    bracket_after(below, (BISECTION_STEPS - 1) as nat).center()
}

/// A point of the edge, given from the lower-field end, as measured from the first end.
pub open spec fn from_first_end(swapped: bool, point: int) -> int {
    if swapped {
        EDGE_UNITS - point
    } else {
        point
    }
}

/// A bisection search in progress.
#[derive(Clone, Copy, Debug)]
pub struct Bisection {
    lo: u16,
    hi: u16,
    steps: u8,
    swapped: bool,
}

impl View for Bisection {
    type V = Bracket;

    closed spec fn view(&self) -> Bracket {
        Bracket { lo: self.lo as int, hi: self.hi as int }
    }
}

impl Bisection {
    /// The number of halvings done.
    pub closed spec fn steps(&self) -> nat {
        self.steps as nat
    }

    /// Whether the search runs from the second end of the edge to the first.
    pub closed spec fn is_swapped(&self) -> bool {
        self.swapped
    }

    /// The bracket lies within the edge and has the width that `steps` halvings leave.
    pub closed spec fn wf(&self) -> bool {
        &&& self.steps <= BISECTION_STEPS
        &&& self.hi - self.lo == bracket_width(self.steps as nat)
        &&& self.lo <= self.hi <= EDGE_UNITS
    }

    /// A search over the whole edge. It runs from the end where the field is lower: from
    /// the second end where the field at the first end is the higher of the two.
    pub fn new(first_is_higher: bool) -> (search: Bisection)
        ensures
            search.wf(),
            search.steps() == 0,
            search.is_swapped() == first_is_higher,
            search@ == (Bracket { lo: 0, hi: EDGE_UNITS as int }),
    {
        Bisection { lo: 0, hi: EDGE_UNITS, steps: 0, swapped: first_is_higher }
    }

    /// Whether the search runs from the second end of the edge to the first.
    pub fn swapped(&self) -> (swapped: bool)
        ensures
            swapped == self.is_swapped(),
    {
        self.swapped
    }

    /// Whether all halvings are done.
    pub fn is_done(&self) -> (done: bool)
        requires
            self.wf(),
        ensures
            done == (self.steps() == BISECTION_STEPS),
            self.steps() <= BISECTION_STEPS,
    {
        self.steps == BISECTION_STEPS
    }

    /// The centre of the bracket, from the lower-field end.
    pub fn center(&self) -> (center: u16)
        requires
            self.wf(),
        ensures
            center == self@.center(),
    {
        (self.lo + self.hi) / 2
    }

    /// The centre of the bracket, from the first end of the edge.
    pub fn position(&self) -> (position: u16)
        requires
            self.wf(),
        ensures
            position == from_first_end(self.is_swapped(), self@.center()),
    {
        let center = self.center();
        if self.swapped {
            EDGE_UNITS - center
        } else {
            center
        }
    }

    /// Halves the bracket, given whether the field at its centre lies below the iso-value,
    /// and says which end moved.
    pub fn advance(&mut self, below: bool) -> (moved: Side)
        requires
            old(self).wf(),
            old(self).steps() < BISECTION_STEPS,
        ensures
            final(self).wf(),
            final(self).steps() == old(self).steps() + 1,
            final(self).is_swapped() == old(self).is_swapped(),
            final(self)@ == old(self)@.halve(below),
            moved == if below {
                Side::Left
            } else {
                Side::Right
            },
    {
        proof {
            lemma_bracket_widths();
        }
        let center = self.center();
        self.steps += 1;
        if below {
            self.lo = center;
            Side::Left
        } else {
            self.hi = center;
            Side::Right
        }
    }
}

/// The widths of the brackets of a search: each half of the one before, down to one unit.
pub proof fn lemma_bracket_widths()
    ensures
        bracket_width(0) == 256,
        bracket_width(1) == 128,
        bracket_width(2) == 64,
        bracket_width(3) == 32,
        bracket_width(4) == 16,
        bracket_width(5) == 8,
        bracket_width(6) == 4,
        bracket_width(7) == 2,
        bracket_width(8) == 1,
{
    reveal_with_fuel(bracket_width, 9);
}

/// Over a field that lies below the iso-value at the lower end of the edge and not at the
/// upper end, every bracket of a search has the width that its number of halvings gives
/// and straddles a crossing: the field lies below the iso-value at its lower end and not
/// at its upper end.
pub proof fn lemma_brackets_straddle(below: spec_fn(int) -> bool, steps: nat)
    requires
        below(0),
        !below(EDGE_UNITS as int),
        steps <= BISECTION_STEPS,
    ensures
        ({
            let b = bracket_after(below, steps);
            &&& 0 <= b.lo < b.hi <= EDGE_UNITS
            &&& b.hi - b.lo == bracket_width(steps)
            &&& below(b.lo)
            &&& !below(b.hi)
        }),
    decreases steps,
{
    lemma_bracket_widths();
    if steps > 0 {
        lemma_brackets_straddle(below, (steps - 1) as nat);
    }
}

/// Over a field that lies below the iso-value at the lower end of the edge and not at the
/// upper end, a search returns an end of a bracket one unit wide that straddles a
/// crossing: a point within one unit of a crossing.
pub proof fn lemma_search_locates_crossing(below: spec_fn(int) -> bool)
    requires
        below(0),
        !below(EDGE_UNITS as int),
    ensures
        ({
            let b = bracket_after(below, BISECTION_STEPS as nat);
            &&& b.hi == b.lo + 1
            &&& 0 <= b.lo
            &&& b.hi <= EDGE_UNITS
            &&& below(b.lo)
            &&& !below(b.hi)
            &&& located(below) == b.lo || located(below) == b.hi
        }),
{
    lemma_bracket_widths();
    lemma_brackets_straddle(below, BISECTION_STEPS as nat);
    lemma_brackets_straddle(below, (BISECTION_STEPS - 1) as nat);
}

/// Over a field that rises along the edge and meets the iso-value at `p / q` units from
/// the lower end, a search returns a point within one unit of `p / q`.
pub proof fn lemma_search_finds_linear_crossing(below: spec_fn(int) -> bool, p: int, q: int)
    requires
        q > 0,
        0 < p <= EDGE_UNITS * q,
        forall|t: int| #[trigger] below(t) == (t * q < p),
    ensures
        -q <= located(below) * q - p <= q,
{
    lemma_search_locates_crossing(below);
    let b = bracket_after(below, BISECTION_STEPS as nat);
    assert(b.hi * q == b.lo * q + q) by (nonlinear_arith)
        requires
            b.hi == b.lo + 1,
    ;
}

/// Where the field differs at the two ends of an edge, the searches from either end run
/// from the same end, and a point that both locate is the same point of the edge: its
/// distances from the two ends add up to the edge.
pub proof fn lemma_search_from_either_end_agrees(
    first_is_higher: bool,
    second_is_higher: bool,
    point: int,
)
    requires
        first_is_higher != second_is_higher,
    ensures
        from_first_end(first_is_higher, point) + from_first_end(second_is_higher, point)
            == EDGE_UNITS,
{
}

} // verus!
