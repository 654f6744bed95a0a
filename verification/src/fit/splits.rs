//! The level of each drawn split, found on the render: the loudest that keeps
//! the partial's beat under its ceiling.

use crate::fit::tables::FalseBeat;
use crate::order::{is_stable_order, stable_of, stable_order};
use crate::reading::Reading;
use vstd::prelude::*;

verus! {

/// Halvings of the bracket after the draw itself was rendered.
pub const CEILING_STEPS: usize = 6;

/// One drawn split: the depth its partial may beat at, and the same less the
/// margin that is kept under it.
#[derive(Clone, Copy, Debug, PartialEq, Eq, Structural)]
pub struct Drawn {
    pub row: FalseBeat,
    pub ceiling: Reading,
    pub limit: Reading,
}

/// The search for one split's level.
#[derive(Clone, Copy, Debug, PartialEq, Eq)]
pub struct Search {
    pub drawn: Drawn,
    /// The quietest level there is.
    pub floor: Reading,
    /// A level that is quiet enough, or the quietest there is.
    pub lo: Reading,
    /// The drawn level, or the last that was too loud.
    pub hi: Reading,
    /// The loudest level that came in under the ceiling, and the depth it
    /// rendered at.
    pub best: Option<(Reading, Reading)>,
    /// The last depth that was read, the bare render's included.
    pub seen: Reading,
    /// Whether any round read a depth.
    pub read: bool,
    /// Whether the draw was accepted whole.
    pub settled: bool,
}

/// What to ask the engine for.
#[derive(Clone, Copy, Debug, PartialEq, Eq, Structural)]
pub enum Ask {
    Level(Reading),
    Midpoint(Reading, Reading),
}

/// A split that was thrown away, with the depth that was read and its ceiling.
#[derive(Clone, Copy, Debug, PartialEq, Eq, Structural)]
pub struct Refusal {
    pub k: u16,
    pub depth: Reading,
    pub ceiling: Reading,
}

/// A split that is written: its level, the level that was drawn, its ceiling,
/// and the depth it rendered at where the render resolved it.
#[derive(Clone, Copy, Debug, PartialEq, Eq, Structural)]
pub struct Kept {
    pub row: FalseBeat,
    pub drawn_db: Reading,
    pub ceiling: Reading,
    pub rendered: Option<Reading>,
}

/// Whether `mid` lies between `low` and `high`, both included.
pub open spec fn between(low: Reading, mid: Reading, high: Reading) -> bool {
    low.at_most(mid) && mid.at_most(high)
}

impl Search {
    /// The search before the first round.
    pub open spec fn fresh(drawn: Drawn, quietest: Reading, depth: Reading) -> Search {
        Search {
            drawn,
            floor: quietest,
            lo: quietest,
            hi: drawn.row.db,
            best: None,
            seen: depth,
            read: false,
            settled: false,
        }
    }

    /// What to ask for: the draw first, then the middle of the bracket, and
    /// nothing new once the draw has been accepted.
    pub open spec fn next(self, round: int) -> Ask {
        match self.best {
            Some(b) if self.settled => Ask::Level(b.0),
            _ => if round == 0 {
                Ask::Level(self.hi)
            } else {
                Ask::Midpoint(self.lo, self.hi)
            },
        }
    }

    /// Whether a level answers what was asked for: it is the level itself, or
    /// lies between the ends of the bracket.
    pub open spec fn permits(self, round: int, asked: Reading) -> bool {
        match self.next(round) {
            Ask::Level(db) => asked == db,
            Ask::Midpoint(lo, hi) => between(lo, asked, hi) || between(hi, asked, lo),
        }
    }

    /// The search after a render at level `asked` read `depth`. A partial that
    /// was not resolved changes nothing.
    pub open spec fn told(self, round: int, asked: Reading, depth: Option<Reading>) -> Search {
        match depth {
            None => self,
            Some(d) => if d.at_most(self.drawn.limit) {
                Search {
                    best: Some((asked, d)),
                    lo: asked,
                    seen: d,
                    read: true,
                    settled: self.settled || round == 0,
                    ..self
                }
            } else {
                Search { hi: asked, seen: d, read: true, ..self }
            },
        }
    }

    /// What a search knows: a level that was accepted rendered under its
    /// limit and is the bracket's lower end, a draw is settled only with such a
    /// level, what was read without one is over the limit, and the bracket lies between the quietest level and the draw.
    pub open spec fn sound(self) -> bool {
        &&& self.best matches Some(b) ==> b.1.at_most(self.drawn.limit) && b.0 == self.lo
            && self.read
        &&& self.settled ==> self.best is Some
        &&& self.read && self.best is None ==> !self.seen.at_most(self.drawn.limit)
        &&& self.floor.at_most(self.drawn.row.db) ==> between(self.floor, self.lo, self.hi)
            && self.hi.at_most(self.drawn.row.db)
    }

    /// The split that the search writes: at the loudest level that came in
    /// under the ceiling, or as it was drawn where no round read its partial.
    pub open spec fn outcome(self) -> Option<Kept> {
        match self.best {
            Some(b) => Some(
                Kept {
                    row: FalseBeat { db: b.0, ..self.drawn.row },
                    drawn_db: self.drawn.row.db,
                    ceiling: self.drawn.ceiling,
                    rendered: Some(b.1),
                },
            ),
            None => if self.read {
                None
            } else {
                Some(
                    Kept {
                        row: self.drawn.row,
                        drawn_db: self.drawn.row.db,
                        ceiling: self.drawn.ceiling,
                        rendered: None,
                    },
                )
            },
        }
    }

    /// Whether a level answers what was asked for.
    pub fn allows(&self, round: usize, asked: Reading) -> (r: bool)
        ensures
            r == self.permits(round as int, asked),
    {
        match self.ask(round) {
            Ask::Level(db) => asked == db,
            Ask::Midpoint(lo, hi) => (lo.le(&asked) && asked.le(&hi)) || (hi.le(&asked)
                && asked.le(&lo)),
        }
    }

    /// The split that the search writes, if any.
    pub fn close(&self) -> (r: Option<Kept>)
        ensures
            r == self.outcome(),
    {
        match self.best {
            Some(b) => Some(
                Kept {
                    row: FalseBeat { k: self.drawn.row.k, hz: self.drawn.row.hz, db: b.0 },
                    drawn_db: self.drawn.row.db,
                    ceiling: self.drawn.ceiling,
                    rendered: Some(b.1),
                },
            ),
            None => if self.read {
                None
            } else {
                Some(
                    Kept {
                        row: self.drawn.row,
                        drawn_db: self.drawn.row.db,
                        ceiling: self.drawn.ceiling,
                        rendered: None,
                    },
                )
            },
        }
    }

    /// What to ask for in this round.
    pub fn ask(&self, round: usize) -> (r: Ask)
        ensures
            r == self.next(round as int),
    {
        if self.settled {
            if let Some(b) = self.best {
                return Ask::Level(b.0);
            }
        }
        if round == 0 {
            Ask::Level(self.hi)
        } else {
            Ask::Midpoint(self.lo, self.hi)
        }
    }

    fn tell(&self, round: usize, asked: Reading, depth: Option<Reading>) -> (r: Search)
        ensures
            r == self.told(round as int, asked, depth),
    {
        match depth {
            None => *self,
            Some(d) => if d.le(&self.drawn.limit) {
                Search {
                    drawn: self.drawn,
                    floor: self.floor,
                    lo: asked,
                    hi: self.hi,
                    best: Some((asked, d)),
                    seen: d,
                    read: true,
                    settled: self.settled || round == 0,
                }
            } else {
                Search {
                    drawn: self.drawn,
                    floor: self.floor,
                    lo: self.lo,
                    hi: asked,
                    best: self.best,
                    seen: d,
                    read: true,
                    settled: self.settled,
                }
            },
        }
    }
}

/// The searches of one key's splits, with what was decided before the first
/// round.
pub struct Closing {
    pub searches: Vec<Search>,
    pub refused: Vec<Refusal>,
    /// Splits whose partial the bare render did not resolve; they stay as drawn.
    pub unobserved: Vec<Kept>,
    pub round: usize,
}

/// What the bare render decides about one draw.
pub enum Verdict {
    Refused,
    Unobserved,
    Open,
}

/// A partial that already beats over its limit with nothing written is
/// refused; one that was not resolved keeps its draw; the others are searched.
pub open spec fn verdict(d: Drawn, bare: Option<Reading>) -> Verdict {
    match bare {
        None => Verdict::Unobserved,
        Some(depth) => if d.limit.below(depth) {
            Verdict::Refused
        } else {
            Verdict::Open
        },
    }
}

pub open spec fn opened(drawn: Seq<Drawn>, bare: Seq<Option<Reading>>, quietest: Reading) -> Seq<Search>
    decreases drawn.len(),
{
    if drawn.len() == 0 {
        Seq::empty()
    } else {
        let before = opened(drawn.drop_last(), bare.drop_last(), quietest);
        if verdict(drawn.last(), bare.last()) is Open {
            before.push(Search::fresh(drawn.last(), quietest, bare.last()->0))
        } else {
            before
        }
    }
}

pub open spec fn refused_at_once(drawn: Seq<Drawn>, bare: Seq<Option<Reading>>) -> Seq<Refusal>
    decreases drawn.len(),
{
    if drawn.len() == 0 {
        Seq::empty()
    } else {
        let before = refused_at_once(drawn.drop_last(), bare.drop_last());
        if verdict(drawn.last(), bare.last()) is Refused {
            before.push(
                Refusal {
                    k: drawn.last().row.k,
                    depth: bare.last()->0,
                    ceiling: drawn.last().ceiling,
                },
            )
        } else {
            before
        }
    }
}

pub open spec fn left_as_drawn(drawn: Seq<Drawn>, bare: Seq<Option<Reading>>) -> Seq<Kept>
    decreases drawn.len(),
{
    if drawn.len() == 0 {
        Seq::empty()
    } else {
        let before = left_as_drawn(drawn.drop_last(), bare.drop_last());
        if verdict(drawn.last(), bare.last()) is Unobserved {
            before.push(
                Kept {
                    row: drawn.last().row,
                    drawn_db: drawn.last().row.db,
                    ceiling: drawn.last().ceiling,
                    rendered: None,
                },
            )
        } else {
            before
        }
    }
}

/// What the splits of a key come to: those that are written, how many of them
/// were made quieter than drawn, those that were refused, and how many were
/// written as drawn because the render never resolved them.
pub struct ClosedSplits {
    pub rows: Vec<Kept>,
    pub trimmed: usize,
    pub refused: Vec<Refusal>,
    pub unobserved: usize,
}

/// The splits that the searches write.
pub open spec fn accepted(searches: Seq<Search>) -> Seq<Kept>
    decreases searches.len(),
{
    if searches.len() == 0 {
        Seq::empty()
    } else {
        let before = accepted(searches.drop_last());
        match searches.last().outcome() {
            None => before,
            Some(kept) => before.push(kept),
        }
    }
}

/// The splits that were read at some level and came in under the ceiling at
/// none.
pub open spec fn given_up(searches: Seq<Search>) -> Seq<Refusal>
    decreases searches.len(),
{
    if searches.len() == 0 {
        Seq::empty()
    } else {
        let before = given_up(searches.drop_last());
        let s = searches.last();
        if s.outcome() is None {
            before.push(Refusal { k: s.drawn.row.k, depth: s.seen, ceiling: s.drawn.ceiling })
        } else {
            before
        }
    }
}

/// How many of the rows are quieter than they were drawn.
pub open spec fn quieter(rows: Seq<Kept>) -> nat
    decreases rows.len(),
{
    if rows.len() == 0 {
        0
    } else {
        quieter(rows.drop_last()) + (if rows.last().row.db.below(rows.last().drawn_db) {
            1nat
        } else {
            0
        })
    }
}

/// How many of the rows were not resolved by the render.
pub open spec fn unread(rows: Seq<Kept>) -> nat
    decreases rows.len(),
{
    if rows.len() == 0 {
        0
    } else {
        unread(rows.drop_last()) + (if rows.last().rendered is None {
            1nat
        } else {
            0
        })
    }
}

/// The partials of the rows.
pub open spec fn partials(rows: Seq<Kept>) -> Seq<i64> {
    Seq::new(rows.len(), |i: int| rows[i].row.k as i64)
}

/// The rows in the order of their partials, equal partials as they came.
pub open spec fn by_partial(rows: Seq<Kept>) -> Seq<Kept> {
    let order = stable_of(partials(rows));
    Seq::new(rows.len(), |i: int| rows[order[i] as int])
}

/// Whether every search has accepted its draw.
pub open spec fn all_settled(searches: Seq<Search>) -> bool {
    forall|i: int| 0 <= i < searches.len() ==> (#[trigger] searches[i]).settled
}

impl Closing {
    /// Whether another round is rendered: there is something to search, rounds
    /// are left, and not every draw has been accepted.
    pub open spec fn going(self) -> bool {
        &&& self.searches.len() > 0
        &&& self.round <= CEILING_STEPS
        &&& !(self.round > 0 && all_settled(self.searches@))
    }

    pub open spec fn sound(self) -> bool {
        forall|i: int| 0 <= i < self.searches.len() ==> (#[trigger] self.searches@[i]).sound()
    }

    /// Sorts the draws by what the bare render read at their partials.
    pub fn begin(drawn: &Vec<Drawn>, bare: &Vec<Option<Reading>>, quietest: Reading) -> (r: Closing)
        requires
            drawn.len() == bare.len(),
        ensures
            r.searches@ == opened(drawn@, bare@, quietest),
            r.refused@ == refused_at_once(drawn@, bare@),
            r.unobserved@ == left_as_drawn(drawn@, bare@),
            r.round == 0,
            r.sound(),
    {
        let mut r = Closing {
            searches: Vec::new(),
            refused: Vec::new(),
            unobserved: Vec::new(),
            round: 0,
        };
        let mut i: usize = 0;
        proof {
            assert(drawn@.take(0) =~= Seq::<Drawn>::empty());
        }
        while i < drawn.len()
            invariant
                i <= drawn.len(),
                drawn.len() == bare.len(),
                r.searches@ == opened(drawn@.take(i as int), bare@.take(i as int), quietest),
                r.refused@ == refused_at_once(drawn@.take(i as int), bare@.take(i as int)),
                r.unobserved@ == left_as_drawn(drawn@.take(i as int), bare@.take(i as int)),
                r.round == 0,
                r.sound(),
            decreases drawn.len() - i,
        {
            let d = drawn[i];
            proof {
                assert(drawn@.take(i + 1).drop_last() =~= drawn@.take(i as int));
                assert(bare@.take(i + 1).drop_last() =~= bare@.take(i as int));
                assert(drawn@.take(i + 1).last() == d);
                assert(bare@.take(i + 1).last() == bare@[i as int]);
            }
            match bare[i] {
                None => {
                    r.unobserved.push(
                        Kept { row: d.row, drawn_db: d.row.db, ceiling: d.ceiling, rendered: None },
                    );
                },
                Some(depth) => {
                    if d.limit.lt(&depth) {
                        r.refused.push(Refusal { k: d.row.k, depth, ceiling: d.ceiling });
                    } else {
                        r.searches.push(
                            Search {
                                drawn: d,
                                floor: quietest,
                                lo: quietest,
                                hi: d.row.db,
                                best: None,
                                seen: depth,
                                read: false,
                                settled: false,
                            },
                        );
                    }
                },
            }
            i = i + 1;
        }
        proof {
            assert(drawn@.take(i as int) =~= drawn@);
            assert(bare@.take(i as int) =~= bare@);
        }
        r
    }

    /// Whether another round is rendered.
    pub fn running(&self) -> (r: bool)
        ensures
            r == self.going(),
    {
        if self.searches.len() == 0 || self.round > CEILING_STEPS {
            return false;
        }
        if self.round == 0 {
            return true;
        }
        let mut i: usize = 0;
        while i < self.searches.len()
            invariant
                i <= self.searches.len(),
                0 < self.round <= CEILING_STEPS,
                forall|k: int| 0 <= k < i ==> (#[trigger] self.searches@[k]).settled,
            decreases self.searches.len() - i,
        {
            if !self.searches[i].settled {
                return true;
            }
            i = i + 1;
        }
        false
    }

    /// Takes in a round: the levels that were asked for, and the depth that was
    /// read at each partial where it was resolved.
    pub fn observe(&mut self, asked: &Vec<Reading>, depths: &Vec<Option<Reading>>)
        requires
            old(self).sound(),
            old(self).round <= CEILING_STEPS,
            asked.len() == old(self).searches.len(),
            depths.len() == old(self).searches.len(),
            forall|i: int|
                0 <= i < old(self).searches.len() ==> (#[trigger] old(self).searches@[i]).permits(
                    old(self).round as int,
                    asked@[i],
                ),
        ensures
            final(self).sound(),
            final(self).round == old(self).round + 1,
            final(self).refused == old(self).refused,
            final(self).unobserved == old(self).unobserved,
            final(self).searches.len() == old(self).searches.len(),
            forall|i: int|
                0 <= i < old(self).searches.len() ==> (#[trigger] final(self).searches@[i]) == old(
                    self,
                ).searches@[i].told(old(self).round as int, asked@[i], depths@[i]),
    {
        let mut i: usize = 0;
        while i < self.searches.len()
            invariant
                i <= self.searches.len(),
                self.searches.len() == old(self).searches.len(),
                asked.len() == self.searches.len(),
                depths.len() == self.searches.len(),
                self.round == old(self).round,
                self.round <= CEILING_STEPS,
                forall|k: int|
                    0 <= k < self.searches.len() ==> (#[trigger] old(self).searches@[k]).permits(
                        old(self).round as int,
                        asked@[k],
                    ),
                self.refused == old(self).refused,
                self.unobserved == old(self).unobserved,
                self.sound(),
                forall|k: int|
                    0 <= k < i ==> (#[trigger] self.searches@[k]) == old(self).searches@[k].told(
                        old(self).round as int,
                        asked@[k],
                        depths@[k],
                    ),
                forall|k: int|
                    i <= k < self.searches.len() ==> (#[trigger] self.searches@[k]) == old(
                        self,
                    ).searches@[k],
            decreases self.searches.len() - i,
        {
            let ghost before = self.searches@;
            let next = self.searches[i].tell(self.round, asked[i], depths[i]);
            assert(before[i as int].sound());
            assert(before[i as int] == old(self).searches@[i as int]);
            assert(next.sound());
            self.searches.set(i, next);
            assert(self.sound()) by {
                assert forall|k: int| 0 <= k < self.searches.len() implies (
                #[trigger] self.searches@[k]).sound() by {
                    if k != i {
                        assert(self.searches@[k] == before[k]);
                        assert(before[k].sound());
                    }
                }
            }
            i = i + 1;
        }
        self.round = self.round + 1;
    }

    /// What the splits come to: those left as drawn and those that the searches
    /// write, in the order of their partials, and those that were refused.
    pub fn finish(self) -> (r: ClosedSplits)
        requires
            self.sound(),
        ensures
            r.rows@ == by_partial(self.unobserved@ + accepted(self.searches@)),
            r.trimmed == quieter(self.unobserved@ + accepted(self.searches@)),
            r.refused@ == self.refused@ + given_up(self.searches@),
            r.unobserved == unread(self.unobserved@ + accepted(self.searches@)),
    {
        let mut rows = self.unobserved;
        let mut refused = self.refused;
        let searches = self.searches;
        let mut i: usize = 0;
        proof {
            assert(searches@.take(0) =~= Seq::<Search>::empty());
            assert(rows@ + Seq::<Kept>::empty() =~= rows@);
            assert(refused@ + Seq::<Refusal>::empty() =~= refused@);
        }
        while i < searches.len()
            invariant
                i <= searches.len(),
                searches == self.searches,
                rows@ == self.unobserved@ + accepted(searches@.take(i as int)),
                refused@ == self.refused@ + given_up(searches@.take(i as int)),
            decreases searches.len() - i,
        {
            let s = searches[i];
            proof {
                assert(searches@.take(i + 1).drop_last() =~= searches@.take(i as int));
                assert(searches@.take(i + 1).last() == s);
            }
            match s.close() {
                None => {
                    refused.push(
                        Refusal { k: s.drawn.row.k, depth: s.seen, ceiling: s.drawn.ceiling },
                    );
                },
                Some(kept) => {
                    rows.push(kept);
                },
            }
            proof {
                assert(rows@ =~= self.unobserved@ + accepted(searches@.take(i + 1)));
                assert(refused@ =~= self.refused@ + given_up(searches@.take(i + 1)));
            }
            i = i + 1;
        }
        proof {
            assert(searches@.take(i as int) =~= searches@);
        }
        let (trimmed, unobserved) = counted(&rows);
        ClosedSplits { rows: sorted(&rows), trimmed, refused, unobserved }
    }
}

/// How many of the rows are quieter than they were drawn, and how many the
/// render did not resolve.
fn counted(rows: &Vec<Kept>) -> (r: (usize, usize))
    ensures
        r.0 == quieter(rows@),
        r.1 == unread(rows@),
{
    let mut trimmed: usize = 0;
    let mut unobserved: usize = 0;
    let mut i: usize = 0;
    proof {
        assert(rows@.take(0) =~= Seq::<Kept>::empty());
    }
    while i < rows.len()
        invariant
            i <= rows.len(),
            trimmed <= i,
            unobserved <= i,
            trimmed == quieter(rows@.take(i as int)),
            unobserved == unread(rows@.take(i as int)),
        decreases rows.len() - i,
    {
        proof {
            assert(rows@.take(i + 1).drop_last() =~= rows@.take(i as int));
            assert(rows@.take(i + 1).last() == rows@[i as int]);
        }
        if rows[i].row.db.lt(&rows[i].drawn_db) {
            trimmed = trimmed + 1;
        }
        if rows[i].rendered.is_none() {
            unobserved = unobserved + 1;
        }
        i = i + 1;
    }
    proof {
        assert(rows@.take(i as int) =~= rows@);
    }
    (trimmed, unobserved)
}

/// The rows in the order of their partials, equal partials as they came.
pub fn sorted(rows: &Vec<Kept>) -> (r: Vec<Kept>)
    ensures
        r@ == by_partial(rows@),
{
    let mut keys: Vec<i64> = Vec::new();
    let mut i: usize = 0;
    while i < rows.len()
        invariant
            i <= rows.len(),
            keys@ == partials(rows@).take(i as int),
        decreases rows.len() - i,
    {
        keys.push(rows[i].row.k as i64);
        i = i + 1;
        proof {
            assert(keys@ =~= partials(rows@).take(i as int));
        }
    }
    proof {
        assert(partials(rows@).take(i as int) =~= partials(rows@));
    }
    let order = stable_order(&keys);
    let mut out: Vec<Kept> = Vec::new();
    let mut k: usize = 0;
    while k < order.len()
        invariant
            k <= order.len(),
            order.len() == rows.len(),
            order@ == stable_of(partials(rows@)),
            forall|a: int| 0 <= a < order.len() ==> (#[trigger] order@[a]) < rows.len(),
            out@ == by_partial(rows@).take(k as int),
        decreases order.len() - k,
    {
        out.push(rows[order[k]]);
        k = k + 1;
        proof {
            assert(out@ =~= by_partial(rows@).take(k as int));
        }
    }
    proof {
        assert(by_partial(rows@).take(k as int) =~= by_partial(rows@));
    }
    out
}

/// Every draw ends up written or refused, and none twice.
pub proof fn every_draw_is_accounted_for(drawn: Seq<Drawn>, bare: Seq<Option<Reading>>, quietest: Reading)
    requires
        drawn.len() == bare.len(),
    ensures
        opened(drawn, bare, quietest).len() + refused_at_once(drawn, bare).len() + left_as_drawn(
            drawn,
            bare,
        ).len() == drawn.len(),
    decreases drawn.len(),
{
    if drawn.len() > 0 {
        every_draw_is_accounted_for(drawn.drop_last(), bare.drop_last(), quietest);
    }
}

/// Every search ends in a written split or a refusal.
pub proof fn every_search_is_decided(searches: Seq<Search>)
    ensures
        accepted(searches).len() + given_up(searches).len() == searches.len(),
    decreases searches.len(),
{
    if searches.len() > 0 {
        every_search_is_decided(searches.drop_last());
    }
}

/// The split is what the search came to: it differs from the draw in its level
/// alone, which lies between the quietest there is and the draw, and it either
/// rendered at or under its limit or was never read and is as it was drawn.
pub open spec fn written_by(s: Search, kept: Kept) -> bool {
    &&& s.outcome() == Some(kept)
    &&& kept.row == (FalseBeat { db: kept.row.db, ..s.drawn.row })
    &&& kept.drawn_db == s.drawn.row.db
    &&& match kept.rendered {
        Some(depth) => depth.at_most(s.drawn.limit),
        None => !s.read && kept.row == s.drawn.row,
    }
    &&& s.floor.at_most(s.drawn.row.db) ==> between(s.floor, kept.row.db, kept.drawn_db)
}

/// Every split that is written after a search is no louder than it was drawn
/// and no quieter than the quietest level, and rendered at or under its limit
/// unless no round read it.
pub proof fn written_splits_stay_under_their_limit(searches: Seq<Search>, i: int)
    requires
        forall|k: int| 0 <= k < searches.len() ==> (#[trigger] searches[k]).sound(),
        0 <= i < accepted(searches).len(),
    ensures
        exists|k: int|
            0 <= k < searches.len() && written_by(#[trigger] searches[k], accepted(searches)[i]),
    decreases searches.len(),
{
    let n = searches.len() - 1;
    let shorter = searches.drop_last();
    if i < accepted(shorter).len() {
        assert forall|k: int| 0 <= k < shorter.len() implies (#[trigger] shorter[k]).sound() by {
            assert(shorter[k] == searches[k]);
        }
        written_splits_stay_under_their_limit(shorter, i);
        let k = choose|k: int|
            0 <= k < shorter.len() && written_by(#[trigger] shorter[k], accepted(shorter)[i]);
        assert(searches[k] == shorter[k]);
    } else {
        assert(searches[n].sound());
        assert(searches[n] == searches.last());
        assert(written_by(searches[n], accepted(searches)[i]));
    }
}

/// A split that no round read is written as it was drawn, and only one that was
/// read over its limit is given up.
pub proof fn an_unread_draw_stands(s: Search)
    requires
        s.sound(),
    ensures
        !s.read ==> s.outcome() == Some(
            Kept {
                row: s.drawn.row,
                drawn_db: s.drawn.row.db,
                ceiling: s.drawn.ceiling,
                rendered: None,
            },
        ),
        s.outcome() is None <==> s.read && s.best is None,
        s.outcome() is None ==> !s.seen.at_most(s.drawn.limit),
{
}

/// A draw that comes in under its limit in the first round is written whole.
pub proof fn a_quiet_draw_is_kept_whole(drawn: Drawn, quietest: Reading, bare: Reading, depth: Reading)
    requires
        depth.at_most(drawn.limit),
    ensures
        ({
            let s = Search::fresh(drawn, quietest, bare);
            let after = s.told(0, drawn.row.db, Some(depth));
            &&& s.next(0) == Ask::Level(drawn.row.db)
            &&& after.settled
            &&& after.best == Some((drawn.row.db, depth))
            &&& forall|round: int| #[trigger] after.next(round) == Ask::Level(drawn.row.db)
        }),
{
}

/// Rows come out in the order of their partials.
pub proof fn rows_are_in_partial_order(rows: Seq<Kept>, i: int, j: int)
    requires
        rows.len() <= usize::MAX,
        0 <= i < j < rows.len(),
    ensures
        by_partial(rows)[i].row.k <= by_partial(rows)[j].row.k,
{
    crate::order::stable_of_is_stable(partials(rows));
    let order = stable_of(partials(rows));
    assert(is_stable_order(partials(rows), order));
    assert(crate::order::goes_before(partials(rows), order[i], order[j]));
    assert(order[i] < rows.len() && order[j] < rows.len());
}

/// A level that came in under the limit becomes the bracket's lower end and is
/// the one to write; one that did not becomes its upper end; and a partial that
/// was not read moves nothing.
pub proof fn a_round_moves_one_end(s: Search, round: int, asked: Reading, depth: Reading)
    ensures
        ({
            let after = s.told(round, asked, Some(depth));
            &&& after.drawn == s.drawn
            &&& after.floor == s.floor
            &&& after.seen == depth
            &&& after.read
            &&& depth.at_most(s.drawn.limit) ==> after.lo == asked && after.hi == s.hi && after.best
                == Some((asked, depth))
            &&& !depth.at_most(s.drawn.limit) ==> after.hi == asked && after.lo == s.lo && after.best
                == s.best && after.settled == s.settled
            &&& after.settled && !s.settled ==> round == 0 && depth.at_most(s.drawn.limit)
        }),
        s.told(round, asked, None) == s,
{
}

/// The draw is asked for first, and the middle of the bracket after that; once
/// the draw was accepted it is asked for again.
pub proof fn the_draw_is_asked_for_first(drawn: Drawn, quietest: Reading, bare: Reading, s: Search, round: int)
    ensures
        Search::fresh(drawn, quietest, bare).next(0) == Ask::Level(drawn.row.db),
        Search::fresh(drawn, quietest, bare).lo == quietest,
        Search::fresh(drawn, quietest, bare).hi == drawn.row.db,
        !s.settled && round > 0 ==> s.next(round) == Ask::Midpoint(s.lo, s.hi),
        s.settled && s.best is Some ==> s.next(round) == Ask::Level((s.best->0).0),
{
}

/// A partial that beats over its limit with nothing written is refused, one that
/// the bare render did not resolve stays as drawn, and the others are searched.
pub proof fn the_bare_render_sorts_the_draws(d: Drawn, depth: Reading)
    ensures
        verdict(d, None) is Unobserved,
        d.limit.below(depth) ==> verdict(d, Some(depth)) is Refused,
        depth.at_most(d.limit) ==> verdict(d, Some(depth)) is Open,
{
}

} // verus!
