//! How the pair's numbers are searched: which candidate is taken, and when the
//! search stops.

use crate::order::{first_least, is_first_least, places, places_of};
use crate::reading::Reading;
use vstd::prelude::*;

verus! {

/// A number of the pair that a search may move.
#[derive(Clone, Copy, Debug, PartialEq, Eq, Structural)]
pub enum Knob {
    Spacing,
    Span,
    Width,
    Coherence,
    ModalLo,
    ModalHi,
    ModalLift,
}

/// The band that the soundboard's modes control.
#[derive(Clone, Copy, Debug, PartialEq, Eq, Structural)]
pub struct Band {
    pub lo: Reading,
    pub hi: Reading,
    pub lift: Reading,
}

/// The pair.
#[derive(Clone, Copy, Debug, PartialEq, Eq, Structural)]
pub struct Voicing {
    pub spacing: Reading,
    pub height: Reading,
    pub span: Reading,
    pub width: Reading,
    pub coherence: Reading,
    pub modal: Option<Band>,
}

/// Something that is not a number.
pub const NOT_A_NUMBER: u64 = 0x7ff8_0000_0000_0000;

/// The knobs of the trims.
pub fn trim_knobs() -> (r: Vec<Knob>)
    ensures
        r@ == seq![Knob::Width, Knob::Coherence],
{
    let mut v: Vec<Knob> = Vec::new();
    v.push(Knob::Width);
    v.push(Knob::Coherence);
    v
}

/// The knobs of the image.
pub fn image_knobs() -> (r: Vec<Knob>)
    ensures
        r@ == seq![Knob::Spacing, Knob::Span, Knob::Width, Knob::Coherence],
{
    let mut v: Vec<Knob> = Vec::new();
    v.push(Knob::Spacing);
    v.push(Knob::Span);
    v.push(Knob::Width);
    v.push(Knob::Coherence);
    v
}

/// The knobs of the band.
pub fn modal_knobs() -> (r: Vec<Knob>)
    ensures
        r@ == seq![Knob::ModalLo, Knob::ModalHi, Knob::ModalLift],
{
    let mut v: Vec<Knob> = Vec::new();
    v.push(Knob::ModalLo);
    v.push(Knob::ModalHi);
    v.push(Knob::ModalLift);
    v
}

/// The knobs of the band and the trims.
pub fn band_knobs() -> (r: Vec<Knob>)
    ensures
        r@ == seq![Knob::Width, Knob::Coherence, Knob::ModalLo, Knob::ModalHi, Knob::ModalLift],
{
    let mut v: Vec<Knob> = Vec::new();
    v.push(Knob::Width);
    v.push(Knob::Coherence);
    v.push(Knob::ModalLo);
    v.push(Knob::ModalHi);
    v.push(Knob::ModalLift);
    v
}

impl Knob {
    /// The least and the greatest value.
    pub open spec fn range(self) -> (Reading, Reading) {
        match self {
            Knob::Spacing => (
                Reading { bits: 0x3fa4_7ae1_47ae_147b },
                Reading { bits: 0x3fef_ae14_7ae1_47ae },
            ),
            Knob::Span => (
                Reading { bits: 0x3fe0_0000_0000_0000 },
                Reading { bits: 0x3ff8_0000_0000_0000 },
            ),
            Knob::Width => (
                Reading { bits: 0x3fa9_9999_9999_999a },
                Reading { bits: 0x3fff_d70a_3d70_a3d7 },
            ),
            Knob::Coherence => (
                Reading { bits: 0x3fd0_a3d7_0a3d_70a4 },
                Reading { bits: 0x401f_9999_9999_999a },
            ),
            Knob::ModalLo => (
                Reading { bits: 0x4065_4000_0000_0000 },
                Reading { bits: 0x4079_0000_0000_0000 },
            ),
            Knob::ModalHi => (
                Reading { bits: 0x4069_0000_0000_0000 },
                Reading { bits: 0x4097_7000_0000_0000 },
            ),
            Knob::ModalLift => (
                Reading { bits: 0x3fa9_9999_9999_999a },
                Reading { bits: 0x3fef_ae14_7ae1_47ae },
            ),
        }
    }

    /// The least and the greatest value: 0.04 to 0.99 of spacing, 0.5 to 1.5 of
    /// span, 0.05 to 1.99 of width, 0.26 to 7.9 of coherence, 170 to 400 Hz and
    /// 200 to 1500 Hz of the band's edges, and 0.05 to 0.99 of its lift.
    pub fn bounds(self) -> (r: (Reading, Reading))
        ensures
            r == self.range(),
    {
        match self {
            Knob::Spacing => (
                Reading { bits: 0x3fa4_7ae1_47ae_147b },
                Reading { bits: 0x3fef_ae14_7ae1_47ae },
            ),
            Knob::Span => (
                Reading { bits: 0x3fe0_0000_0000_0000 },
                Reading { bits: 0x3ff8_0000_0000_0000 },
            ),
            Knob::Width => (
                Reading { bits: 0x3fa9_9999_9999_999a },
                Reading { bits: 0x3fff_d70a_3d70_a3d7 },
            ),
            Knob::Coherence => (
                Reading { bits: 0x3fd0_a3d7_0a3d_70a4 },
                Reading { bits: 0x401f_9999_9999_999a },
            ),
            Knob::ModalLo => (
                Reading { bits: 0x4065_4000_0000_0000 },
                Reading { bits: 0x4079_0000_0000_0000 },
            ),
            Knob::ModalHi => (
                Reading { bits: 0x4069_0000_0000_0000 },
                Reading { bits: 0x4097_7000_0000_0000 },
            ),
            Knob::ModalLift => (
                Reading { bits: 0x3fa9_9999_9999_999a },
                Reading { bits: 0x3fef_ae14_7ae1_47ae },
            ),
        }
    }

    /// The value held between the bounds; what is not a number stays so.
    pub open spec fn within(self, value: Reading) -> Reading {
        let (lo, hi) = self.range();
        let a = if value.below(lo) {
            lo
        } else {
            value
        };
        if hi.below(a) {
            hi
        } else {
            a
        }
    }

    /// The value held between the bounds.
    pub fn hold(self, value: Reading) -> (r: Reading)
        ensures
            r == self.within(value),
    {
        let (lo, hi) = self.bounds();
        let a = if value.lt(&lo) {
            lo
        } else {
            value
        };
        if hi.lt(&a) {
            hi
        } else {
            a
        }
    }

    /// The value of the knob; one of an absent band is not a number.
    pub open spec fn value_in(self, v: Voicing) -> Reading {
        match self {
            Knob::Spacing => v.spacing,
            Knob::Span => v.span,
            Knob::Width => v.width,
            Knob::Coherence => v.coherence,
            Knob::ModalLo => match v.modal {
                None => Reading { bits: NOT_A_NUMBER },
                Some(b) => b.lo,
            },
            Knob::ModalHi => match v.modal {
                None => Reading { bits: NOT_A_NUMBER },
                Some(b) => b.hi,
            },
            Knob::ModalLift => match v.modal {
                None => Reading { bits: NOT_A_NUMBER },
                Some(b) => b.lift,
            },
        }
    }

    /// The value of the knob; one of an absent band is not a number.
    pub fn get(self, v: &Voicing) -> (r: Reading)
        ensures
            r == self.value_in(*v),
            self is Spacing ==> r == v.spacing,
            self is Span ==> r == v.span,
            self is Width ==> r == v.width,
            self is Coherence ==> r == v.coherence,
            v.modal matches Some(b) ==> (self is ModalLo ==> r == b.lo) && (self is ModalHi ==> r
                == b.hi) && (self is ModalLift ==> r == b.lift),
            v.modal is None && (self is ModalLo || self is ModalHi || self is ModalLift) ==> r.nan(),
    {
        match self {
            Knob::Spacing => v.spacing,
            Knob::Span => v.span,
            Knob::Width => v.width,
            Knob::Coherence => v.coherence,
            Knob::ModalLo => match v.modal {
                None => Reading { bits: NOT_A_NUMBER },
                Some(b) => b.lo,
            },
            Knob::ModalHi => match v.modal {
                None => Reading { bits: NOT_A_NUMBER },
                Some(b) => b.hi,
            },
            Knob::ModalLift => match v.modal {
                None => Reading { bits: NOT_A_NUMBER },
                Some(b) => b.lift,
            },
        }
    }

    /// The pair with the knob at `value`. An edge of the band goes no further
    /// than `edge`, so that the two edges do not cross; a knob of an absent band
    /// changes nothing.
    pub open spec fn turned(self, v: Voicing, value: Reading, edge: Reading) -> Voicing {
        match self {
            Knob::Spacing => Voicing { spacing: value, ..v },
            Knob::Span => Voicing { span: value, ..v },
            Knob::Width => Voicing { width: value, ..v },
            Knob::Coherence => Voicing { coherence: value, ..v },
            Knob::ModalLo => match v.modal {
                None => v,
                Some(b) => Voicing { modal: Some(Band { lo: lesser(value, edge), ..b }), ..v },
            },
            Knob::ModalHi => match v.modal {
                None => v,
                Some(b) => Voicing { modal: Some(Band { hi: greater(value, edge), ..b }), ..v },
            },
            Knob::ModalLift => match v.modal {
                None => v,
                Some(b) => Voicing { modal: Some(Band { lift: value, ..b }), ..v },
            },
        }
    }

    /// Turns the knob to `value`, held from crossing `edge`.
    pub fn put(self, v: &mut Voicing, value: Reading, edge: Reading)
        ensures
            *final(v) == self.turned(*old(v), value, edge),
            final(v).height == old(v).height,
            final(v).spacing == (if self is Spacing {
                value
            } else {
                old(v).spacing
            }),
            final(v).span == (if self is Span {
                value
            } else {
                old(v).span
            }),
            final(v).width == (if self is Width {
                value
            } else {
                old(v).width
            }),
            final(v).coherence == (if self is Coherence {
                value
            } else {
                old(v).coherence
            }),
            old(v).modal is None ==> final(v).modal is None,
            old(v).modal matches Some(b) ==> final(v).modal is Some && {
                let a = final(v).modal->0;
                &&& self !is ModalLo ==> a.lo == b.lo
                &&& self !is ModalHi ==> a.hi == b.hi
                &&& self !is ModalLift ==> a.lift == b.lift
                &&& self is ModalLift ==> a.lift == value
                &&& self is ModalLo && value.at_most(edge) ==> a.lo == value
                &&& self is ModalLo && (value.nan() || edge.below(value)) ==> a.lo == edge
                &&& self is ModalHi && edge.at_most(value) ==> a.hi == value
                &&& self is ModalHi && (value.nan() || value.below(edge)) ==> a.hi == edge
            },
    {
        match self {
            Knob::Spacing => {
                v.spacing = value;
            },
            Knob::Span => {
                v.span = value;
            },
            Knob::Width => {
                v.width = value;
            },
            Knob::Coherence => {
                v.coherence = value;
            },
            Knob::ModalLo => {
                if let Some(b) = v.modal {
                    v.modal = Some(Band { lo: least(value, edge), hi: b.hi, lift: b.lift });
                }
            },
            Knob::ModalHi => {
                if let Some(b) = v.modal {
                    v.modal = Some(Band { lo: b.lo, hi: most(value, edge), lift: b.lift });
                }
            },
            Knob::ModalLift => {
                if let Some(b) = v.modal {
                    v.modal = Some(Band { lo: b.lo, hi: b.hi, lift: value });
                }
            },
        }
    }
}

/// What is put is what is got, and nothing else moves. An edge of the band is
/// held at the limit that it is given, and a knob of an absent band moves
/// nothing.
pub proof fn what_is_put_is_got(knob: Knob, other: Knob, v: Voicing, value: Reading, edge: Reading)
    requires
        knob != other,
    ensures
        ({
            let after = knob.turned(v, value, edge);
            let plain = knob is Spacing || knob is Span || knob is Width || knob is Coherence;
            &&& plain ==> knob.value_in(after) == value
            &&& knob is ModalLift && v.modal is Some ==> knob.value_in(after) == value
            &&& knob is ModalLo && v.modal is Some ==> (if value.at_most(edge) {
                knob.value_in(after) == value
            } else {
                !value.nan() && !edge.nan() || value.nan() ==> knob.value_in(after) == edge
            })
            &&& knob is ModalHi && v.modal is Some ==> (if edge.at_most(value) {
                knob.value_in(after) == value
            } else {
                !value.nan() && !edge.nan() || value.nan() ==> knob.value_in(after) == edge
            })
            &&& !plain && v.modal is None ==> after == v
            &&& other.value_in(after) == other.value_in(v)
            &&& after.height == v.height
            &&& after.modal is Some <==> v.modal is Some
        }),
{
}

/// Each knob reads the number that it is named after.
pub proof fn a_knob_reads_its_own_number(v: Voicing)
    ensures
        Knob::Spacing.value_in(v) == v.spacing,
        Knob::Span.value_in(v) == v.span,
        Knob::Width.value_in(v) == v.width,
        Knob::Coherence.value_in(v) == v.coherence,
        v.modal matches Some(b) ==> Knob::ModalLo.value_in(v) == b.lo && Knob::ModalHi.value_in(v)
            == b.hi && Knob::ModalLift.value_in(v) == b.lift,
{
}

/// The smaller of two readings, or the one that is a number.
pub open spec fn lesser(a: Reading, b: Reading) -> Reading {
    if a.nan() {
        b
    } else if b.below(a) {
        b
    } else {
        a
    }
}

/// The larger of two readings, or the one that is a number.
pub open spec fn greater(a: Reading, b: Reading) -> Reading {
    if a.nan() {
        b
    } else if a.below(b) {
        b
    } else {
        a
    }
}

fn least(a: Reading, b: Reading) -> (r: Reading)
    ensures
        r == lesser(a, b),
{
    if a.is_nan() || b.lt(&a) {
        b
    } else {
        a
    }
}

fn most(a: Reading, b: Reading) -> (r: Reading)
    ensures
        r == greater(a, b),
{
    if a.is_nan() || a.lt(&b) {
        b
    } else {
        a
    }
}

/// The band's edges and lifts that the grid tries.
pub open spec fn grid_lo(i: int) -> Reading {
    if i == 0 {
        Reading { bits: 0x4065_8000_0000_0000 }
    } else if i == 1 {
        Reading { bits: 0x4069_0000_0000_0000 }
    } else if i == 2 {
        Reading { bits: 0x406d_6000_0000_0000 }
    } else {
        Reading { bits: 0x4071_9000_0000_0000 }
    }
}

pub open spec fn grid_hi(i: int) -> Reading {
    if i == 0 {
        Reading { bits: 0x4071_8000_0000_0000 }
    } else if i == 1 {
        Reading { bits: 0x4079_0000_0000_0000 }
    } else if i == 2 {
        Reading { bits: 0x4081_d000_0000_0000 }
    } else {
        Reading { bits: 0x4089_7800_0000_0000 }
    }
}

pub open spec fn grid_lift(i: int) -> Reading {
    if i == 0 {
        Reading { bits: 0x3fd0_0000_0000_0000 }
    } else if i == 1 {
        Reading { bits: 0x3fe0_0000_0000_0000 }
    } else if i == 2 {
        Reading { bits: 0x3fe8_0000_0000_0000 }
    } else {
        Reading { bits: 0x3fef_ae14_8000_0000 }
    }
}

/// Cells of the grid beside the one it starts from.
pub const GRID: usize = 64;

/// The candidates of the grid: the start, then its pair with each of four lower
/// edges, four upper edges and four lifts.
pub open spec fn grid_of(start: Voicing) -> Seq<Voicing> {
    seq![start] + Seq::new(
        GRID as nat,
        |i: int|
            Voicing {
                modal: Some(
                    Band { lo: grid_lo(i / 16), hi: grid_hi(i / 4 % 4), lift: grid_lift(i % 4) },
                ),
                ..start
            },
    )
}

fn lo_at(i: usize) -> (r: Reading)
    ensures
        r == grid_lo(i as int),
{
    if i == 0 {
        Reading { bits: 0x4065_8000_0000_0000 }
    } else if i == 1 {
        Reading { bits: 0x4069_0000_0000_0000 }
    } else if i == 2 {
        Reading { bits: 0x406d_6000_0000_0000 }
    } else {
        Reading { bits: 0x4071_9000_0000_0000 }
    }
}

fn hi_at(i: usize) -> (r: Reading)
    ensures
        r == grid_hi(i as int),
{
    if i == 0 {
        Reading { bits: 0x4071_8000_0000_0000 }
    } else if i == 1 {
        Reading { bits: 0x4079_0000_0000_0000 }
    } else if i == 2 {
        Reading { bits: 0x4081_d000_0000_0000 }
    } else {
        Reading { bits: 0x4089_7800_0000_0000 }
    }
}

fn lift_at(i: usize) -> (r: Reading)
    ensures
        r == grid_lift(i as int),
{
    if i == 0 {
        Reading { bits: 0x3fd0_0000_0000_0000 }
    } else if i == 1 {
        Reading { bits: 0x3fe0_0000_0000_0000 }
    } else if i == 2 {
        Reading { bits: 0x3fe8_0000_0000_0000 }
    } else {
        Reading { bits: 0x3fef_ae14_8000_0000 }
    }
}

/// The candidates of the grid: the lower edges 172, 200, 235 and 281 Hz, the
/// upper edges 280, 400, 570 and 815 Hz and the lifts 0.25, 0.5, 0.75 and 0.99,
/// after the start itself.
pub fn modal_grid(start: Voicing) -> (r: Vec<Voicing>)
    ensures
        r@ == grid_of(start),
{
    let mut out: Vec<Voicing> = Vec::new();
    out.push(start);
    let mut i: usize = 0;
    proof {
        assert(out@ =~= grid_of(start).take(1));
    }
    while i < GRID
        invariant
            i <= GRID,
            out@ == grid_of(start).take(i + 1),
        decreases GRID - i,
    {
        out.push(
            Voicing {
                spacing: start.spacing,
                height: start.height,
                span: start.span,
                width: start.width,
                coherence: start.coherence,
                modal: Some(
                    Band { lo: lo_at(i / 16), hi: hi_at(i / 4 % 4), lift: lift_at(i % 4) },
                ),
            },
        );
        i = i + 1;
        proof {
            assert(out@ =~= grid_of(start).take(i + 1));
        }
    }
    proof {
        assert(grid_of(start).take(65) =~= grid_of(start));
    }
    out
}

/// The candidates that were each better than all before them, among the first
/// `n`; the first candidate stands for the start.
pub open spec fn improvements(scores: Seq<Reading>, n: int) -> Seq<usize>
    decreases n,
{
    if n <= 1 {
        seq![0usize]
    } else {
        let before = improvements(scores, n - 1);
        if scores[n - 1].below(scores[before.last() as int]) {
            before.push((n - 1) as usize)
        } else {
            before
        }
    }
}

/// The candidates that were each better than all before them; the last is the
/// best.
pub fn grid_path(scores: &Vec<Reading>) -> (r: Vec<usize>)
    requires
        scores.len() > 0,
    ensures
        r@ == improvements(scores@, scores.len() as int),
        r.len() > 0,
        r@.last() < scores.len(),
{
    let mut path: Vec<usize> = Vec::new();
    path.push(0);
    let mut best: usize = 0;
    let mut i: usize = 1;
    proof {
        assert(path@ =~= seq![0usize]);
    }
    while i < scores.len()
        invariant
            1 <= i <= scores.len(),
            path@ == improvements(scores@, i as int),
            path.len() > 0,
            best == path@.last(),
            best < i,
        decreases scores.len() - i,
    {
        if scores[i].lt(&scores[best]) {
            path.push(i);
            best = i;
        }
        i = i + 1;
    }
    path
}

/// No candidate scores below the last improvement, where every score is a
/// number.
pub proof fn the_last_improvement_is_best(scores: Seq<Reading>, n: int, k: int)
    requires
        0 <= k < n <= scores.len() <= usize::MAX,
        forall|i: int| 0 <= i < scores.len() ==> !(#[trigger] scores[i]).nan(),
    ensures
        improvements(scores, n).len() > 0,
        improvements(scores, n).last() < n,
        !scores[k].below(scores[improvements(scores, n).last() as int]),
    decreases n,
{
    if n > 1 {
        if k < n - 1 {
            the_last_improvement_is_best(scores, n - 1, k);
        } else {
            the_last_improvement_is_best(scores, n - 1, 0);
        }
    }
}

/// The numbers a pair is ordered by; an absent band counts as zeros.
pub open spec fn key_of(v: Voicing) -> Seq<Reading> {
    let zero = Reading { bits: 0 };
    let b = match v.modal {
        None => Band { lo: zero, hi: zero, lift: zero },
        Some(b) => b,
    };
    seq![v.spacing, v.height, v.span, v.width, v.coherence, b.lo, b.hi, b.lift]
}

/// Whether `a` comes before `b`: by the first place where they are not equal,
/// and not at all where a number is missing there.
pub open spec fn comes_before(a: Seq<Reading>, b: Seq<Reading>, i: int) -> bool
    decreases a.len() - i,
{
    if i < 0 || i >= a.len() || i >= b.len() {
        false
    } else if a[i].at_most(b[i]) && b[i].at_most(a[i]) {
        comes_before(a, b, i + 1)
    } else {
        a[i].below(b[i])
    }
}

/// The best of the pairs that passed, with its score.
pub struct Feasible {
    pub best: Option<(Voicing, Reading)>,
}

/// What a candidate is ordered by: its score, then its numbers.
pub open spec fn rated(v: Voicing, score: Reading) -> Seq<Reading> {
    seq![score] + key_of(v)
}

/// The better of what is held and what is offered.
pub open spec fn offered(held: Option<(Voicing, Reading)>, v: Voicing, score: Reading) -> Option<
    (Voicing, Reading),
> {
    match held {
        None => Some((v, score)),
        Some(h) => if comes_before(rated(v, score), rated(h.0, h.1), 0) {
            Some((v, score))
        } else {
            Some(h)
        },
    }
}

fn key_list(v: Voicing, score: Reading) -> (r: Vec<Reading>)
    ensures
        r@ == rated(v, score),
{
    let zero = Reading { bits: 0 };
    let b = match v.modal {
        None => Band { lo: zero, hi: zero, lift: zero },
        Some(b) => b,
    };
    let mut out: Vec<Reading> = Vec::new();
    out.push(score);
    out.push(v.spacing);
    out.push(v.height);
    out.push(v.span);
    out.push(v.width);
    out.push(v.coherence);
    out.push(b.lo);
    out.push(b.hi);
    out.push(b.lift);
    proof {
        assert(out@ =~= rated(v, score));
    }
    out
}

fn before(a: &Vec<Reading>, b: &Vec<Reading>) -> (r: bool)
    ensures
        r == comes_before(a@, b@, 0),
{
    let mut i: usize = 0;
    while i < a.len() && i < b.len()
        invariant
            i <= a.len(),
            comes_before(a@, b@, 0) == comes_before(a@, b@, i as int),
        decreases a.len() - i,
    {
        if !(a[i].le(&b[i]) && b[i].le(&a[i])) {
            return a[i].lt(&b[i]);
        }
        i = i + 1;
    }
    false
}

impl Feasible {
    /// Nothing has passed yet.
    pub fn none() -> (r: Feasible)
        ensures
            r.best is None,
    {
        Feasible { best: None }
    }

    /// Offers a pair that passed; it is held if it is better than what is.
    pub fn offer(&mut self, v: Voicing, score: Reading)
        ensures
            final(self).best == offered(old(self).best, v, score),
    {
        let better = match self.best {
            None => true,
            Some(h) => before(&key_list(v, score), &key_list(h.0, h.1)),
        };
        if better {
            self.best = Some((v, score));
        }
    }

    /// The best pair that passed.
    pub fn take(&self) -> (r: Option<Voicing>)
        ensures
            r == (match self.best {
                None => None,
                Some(h) => Some(h.0),
            }),
    {
        match self.best {
            None => None,
            Some(h) => Some(h.0),
        }
    }
}

/// Every number of it is a number.
pub open spec fn all_numbers(a: Seq<Reading>) -> bool {
    forall|i: int| 0 <= i < a.len() ==> !(#[trigger] a[i]).nan()
}

/// Where nothing is missing, what does not come before, and is not preceded, is
/// equal place by place; and coming before is passed on.
proof fn before_is_an_order(a: Seq<Reading>, b: Seq<Reading>, c: Seq<Reading>, i: int)
    requires
        0 <= i <= a.len(),
        a.len() == b.len(),
        b.len() == c.len(),
        all_numbers(a),
        all_numbers(b),
        all_numbers(c),
    ensures
        !(comes_before(a, b, i) && comes_before(b, a, i)),
        !comes_before(b, a, i) && !comes_before(c, b, i) ==> !comes_before(c, a, i),
    decreases a.len() - i,
{
    if i < a.len() {
        before_is_an_order(a, b, c, i + 1);
    }
}

/// What is held after an offer is preceded neither by the offer nor by anything
/// that did not precede what was held before: the best does not depend on the
/// order of the offers.
pub proof fn the_best_is_preceded_by_nothing(
    held: Option<(Voicing, Reading)>,
    v: Voicing,
    score: Reading,
    other: (Voicing, Reading),
)
    requires
        all_numbers(rated(v, score)),
        all_numbers(rated(other.0, other.1)),
        held matches Some(h) ==> all_numbers(rated(h.0, h.1)),
    ensures
        offered(held, v, score) matches Some(best) && !comes_before(
            rated(v, score),
            rated(best.0, best.1),
            0,
        ) && (held matches Some(h) ==> (!comes_before(
            rated(other.0, other.1),
            rated(h.0, h.1),
            0,
        ) ==> !comes_before(rated(other.0, other.1), rated(best.0, best.1), 0))),
{
    let a = rated(v, score);
    before_is_an_order(a, a, a, 0);
    if held is Some {
        let h = rated((held->0).0, (held->0).1);
        let o = rated(other.0, other.1);
        before_is_an_order(a, h, o, 0);
        before_is_an_order(h, a, o, 0);
    }
}

/// A direction that a knob is moved in.
#[derive(Clone, Copy, Debug, PartialEq, Eq, Structural)]
pub enum Turn {
    Down,
    Stay,
    Up,
}

/// The turns of the three knobs of the band.
#[derive(Clone, Copy, Debug, PartialEq, Eq, Structural)]
pub struct Turns {
    pub lo: Turn,
    pub hi: Turn,
    pub lift: Turn,
}

pub open spec fn turn_at(i: int) -> Turn {
    if i == 0 {
        Turn::Down
    } else if i == 1 {
        Turn::Stay
    } else {
        Turn::Up
    }
}

/// The first `n` of the 27 combinations of turns, without the one that moves
/// nothing.
pub open spec fn turns_of(n: int) -> Seq<Turns>
    decreases n,
{
    if n <= 0 {
        Seq::empty()
    } else {
        let i = n - 1;
        let t = Turns { lo: turn_at(i / 9), hi: turn_at(i / 3 % 3), lift: turn_at(i % 3) };
        if i == 13 {
            turns_of(n - 1)
        } else {
            turns_of(n - 1).push(t)
        }
    }
}

fn turn(i: usize) -> (r: Turn)
    ensures
        r == turn_at(i as int),
{
    if i == 0 {
        Turn::Down
    } else if i == 1 {
        Turn::Stay
    } else {
        Turn::Up
    }
}

/// The 26 neighbours of a band.
pub fn neighbours() -> (r: Vec<Turns>)
    ensures
        r@ == turns_of(27),
        r.len() == 26,
        forall|i: int|
            0 <= i < r.len() ==> (#[trigger] r@[i]) != (Turns {
                lo: Turn::Stay,
                hi: Turn::Stay,
                lift: Turn::Stay,
            }),
{
    let mut out: Vec<Turns> = Vec::new();
    let mut i: usize = 0;
    while i < 27
        invariant
            i <= 27,
            out@ == turns_of(i as int),
            out.len() == (if i <= 13 {
                i as int
            } else {
                i - 1
            }),
            forall|k: int|
                0 <= k < out.len() ==> (#[trigger] out@[k]) != (Turns {
                    lo: Turn::Stay,
                    hi: Turn::Stay,
                    lift: Turn::Stay,
                }),
        decreases 27 - i,
    {
        if i != 13 {
            out.push(Turns { lo: turn(i / 9), hi: turn(i / 3 % 3), lift: turn(i % 3) });
        }
        i = i + 1;
    }
    out
}

/// The neighbour that a refinement moves to: the first of the smallest scores,
/// unless it is not below `limit`.
pub fn refine(scores: &Vec<Reading>, limit: Reading) -> (r: Option<usize>)
    ensures
        match r {
            None => scores.len() == 0 || exists|i: int| #[trigger]
                is_first_least(places_of(scores@), i) && limit.at_most(scores@[i]),
            Some(i) => is_first_least(places_of(scores@), i as int) && !limit.at_most(
                scores@[i as int],
            ),
        },
{
    match first_least(&places(scores)) {
        None => None,
        Some(i) => {
            if limit.le(&scores[i]) {
                assert(is_first_least(places_of(scores@), i as int));
                None
            } else {
                Some(i)
            }
        },
    }
}

/// A compass search: the step starts at a half and is halved each time no probe
/// is better.
pub struct Compass {
    pub halvings: u32,
}

/// Halvings after which the step is under 0.005.
pub const COMPASS_HALVINGS: u32 = 7;

impl Compass {
    pub fn begin() -> (r: Compass)
        ensures
            r.halvings == 0,
    {
        Compass { halvings: 0 }
    }

    /// Whether the step is still above its floor.
    pub fn running(&self) -> (r: bool)
        ensures
            r == (self.halvings < COMPASS_HALVINGS),
    {
        self.halvings < COMPASS_HALVINGS
    }

    /// Takes in the scores of the probes: the first of the smallest is moved to
    /// if it is below `limit`, and else the step is halved.
    pub fn tell(&mut self, scores: &Vec<Reading>, limit: Reading) -> (r: Option<usize>)
        requires
            old(self).halvings < COMPASS_HALVINGS,
        ensures
            match r {
                None => final(self).halvings == old(self).halvings + 1 && (scores.len() == 0
                    || exists|i: int| #[trigger]
                    is_first_least(places_of(scores@), i) && !scores@[i].below(limit)),
                Some(i) => final(self).halvings == old(self).halvings && is_first_least(
                    places_of(scores@),
                    i as int,
                ) && scores@[i as int].below(limit),
            },
    {
        match first_least(&places(scores)) {
            None => {
                self.halvings = self.halvings + 1;
                None
            },
            Some(i) => {
                if scores[i].lt(&limit) {
                    Some(i)
                } else {
                    assert(is_first_least(places_of(scores@), i as int));
                    self.halvings = self.halvings + 1;
                    None
                }
            },
        }
    }
}

/// Rounds of a search.
pub const SEARCH_ROUNDS: usize = 4;

/// Whether a search goes on after a round, `done` rounds in: rounds are left
/// and the round gained more than `epsilon`.
pub fn searches_on(done: usize, gain: Reading, epsilon: Reading) -> (r: bool)
    ensures
        r == (done < SEARCH_ROUNDS && !gain.at_most(epsilon)),
{
    done < SEARCH_ROUNDS && !gain.le(&epsilon)
}

/// Whether the score of a candidate is below `limit`.
pub fn improves(score: Reading, limit: Reading) -> (r: bool)
    ensures
        r == score.below(limit),
{
    score.lt(&limit)
}

/// The pair that is kept: the one without a band where its score is below that
/// of the one with.
pub fn choose_band_or_none(banded: Voicing, with: Reading, bare: Voicing, without: Reading) -> (r: Voicing)
    ensures
        r == (if without.below(with) {
            bare
        } else {
            banded
        }),
{
    if without.lt(&with) {
        bare
    } else {
        banded
    }
}

/// A value is held inside the knob's range, and one inside it is left alone.
pub proof fn a_knob_holds_a_value_in_its_range(knob: Knob, value: Reading)
    requires
        !value.nan(),
    ensures
        knob.range().0.below(knob.range().1),
        knob.range().0.at_most(knob.within(value)),
        knob.within(value).at_most(knob.range().1),
        knob.range().0.at_most(value) && value.at_most(knob.range().1) ==> knob.within(value)
            == value,
        value.below(knob.range().0) ==> knob.within(value) == knob.range().0,
        knob.range().1.below(value) ==> knob.within(value) == knob.range().1,
{
}

/// The improvements begin with the first candidate, and each scores below the one
/// before it.
pub proof fn improvements_fall(scores: Seq<Reading>, n: int, i: int)
    requires
        1 <= n <= scores.len() <= usize::MAX,
        0 <= i < improvements(scores, n).len() - 1,
    ensures
        improvements(scores, n)[0] == 0,
        improvements(scores, n)[i] < improvements(scores, n)[i + 1] < n,
        scores[improvements(scores, n)[i + 1] as int].below(
            scores[improvements(scores, n)[i] as int],
        ),
    decreases n,
{
    improvements_are_earlier(scores, n);
    if n > 1 {
        let before = improvements(scores, n - 1);
        improvements_are_earlier(scores, n - 1);
        if i < before.len() - 1 {
            improvements_fall(scores, n - 1, i);
        } else {
            assert(before.last() == before[i]);
            improvements_begin(scores, n);
        }
    }
}

proof fn improvements_are_earlier(scores: Seq<Reading>, n: int)
    requires
        1 <= n <= usize::MAX,
    ensures
        improvements(scores, n).len() > 0,
        improvements(scores, n).last() < n,
    decreases n,
{
    if n > 1 {
        improvements_are_earlier(scores, n - 1);
    }
}

proof fn improvements_begin(scores: Seq<Reading>, n: int)
    requires
        1 <= n <= usize::MAX,
    ensures
        improvements(scores, n).len() > 0,
        improvements(scores, n)[0] == 0,
    decreases n,
{
    if n > 1 {
        improvements_begin(scores, n - 1);
    }
}

/// What scores lower is held, whichever came first.
pub proof fn the_lower_score_is_held(h: Voicing, held: Reading, v: Voicing, score: Reading)
    ensures
        offered(None, v, score) == Some((v, score)),
        score.below(held) ==> offered(Some((h, held)), v, score) == Some((v, score)),
        held.below(score) ==> offered(Some((h, held)), v, score) == Some((h, held)),
{
    let a = rated(v, score);
    let b = rated(h, held);
    assert(a[0] == score && b[0] == held);
    assert(a.len() == 9 && b.len() == 9);
}

/// The grid begins with the pair as it is, and holds it with every band that its
/// edges and lifts make, once each.
pub proof fn the_grid_holds_every_band(start: Voicing, a: int, b: int, c: int)
    requires
        0 <= a < 4,
        0 <= b < 4,
        0 <= c < 4,
    ensures
        grid_of(start).len() == 65,
        grid_of(start)[0] == start,
        grid_of(start)[1 + 16 * a + 4 * b + c] == (Voicing {
            modal: Some(Band { lo: grid_lo(a), hi: grid_hi(b), lift: grid_lift(c) }),
            ..start
        }),
{
    let i = 16 * a + 4 * b + c;
    assert(i / 16 == a && i / 4 % 4 == b && i % 4 == c);
    assert(grid_of(start)[1 + i] == grid_of(start)[i + 1]);
}

/// The edges and lifts of the grid rise.
pub proof fn the_grid_rises(i: int)
    requires
        0 <= i < 3,
    ensures
        grid_lo(i).below(grid_lo(i + 1)),
        grid_hi(i).below(grid_hi(i + 1)),
        grid_lift(i).below(grid_lift(i + 1)),
{
}

} // verus!
