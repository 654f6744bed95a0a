//! Keys, their names, and lists of them.

use crate::text::{print_signed, signed_decimal, views};
use vstd::prelude::*;

verus! {

/// The name of a pitch class.
pub open spec fn class_name(class: int) -> Seq<char> {
    if class == 0 {
        "C"@
    } else if class == 1 {
        "C#"@
    } else if class == 2 {
        "D"@
    } else if class == 3 {
        "D#"@
    } else if class == 4 {
        "E"@
    } else if class == 5 {
        "F"@
    } else if class == 6 {
        "F#"@
    } else if class == 7 {
        "G"@
    } else if class == 8 {
        "G#"@
    } else if class == 9 {
        "A"@
    } else if class == 10 {
        "A#"@
    } else {
        "B"@
    }
}

/// The name of a key: its pitch class, and its octave where middle C is C4.
pub open spec fn name_of(key: u8) -> Seq<char> {
    class_name(key as int % 12) + signed_decimal(key as int / 12 - 1)
}

/// The name of a key.
pub fn note_name(key: u8) -> (r: String)
    ensures
        r@ == name_of(key),
{
    let class: u8 = key % 12;
    let mut out = if class == 0 {
        String::from_str("C")
    } else if class == 1 {
        String::from_str("C#")
    } else if class == 2 {
        String::from_str("D")
    } else if class == 3 {
        String::from_str("D#")
    } else if class == 4 {
        String::from_str("E")
    } else if class == 5 {
        String::from_str("F")
    } else if class == 6 {
        String::from_str("F#")
    } else if class == 7 {
        String::from_str("G")
    } else if class == 8 {
        String::from_str("G#")
    } else if class == 9 {
        String::from_str("A")
    } else if class == 10 {
        String::from_str("A#")
    } else {
        String::from_str("B")
    };
    out.append(print_signed((key / 12) as i32 - 1).as_str());
    out
}

/// Every key with every velocity: the velocities of the first key first.
pub open spec fn pairs_of(keys: Seq<u8>, velocities: Seq<u8>) -> Seq<(u8, u8)>
    decreases keys.len(),
{
    if keys.len() == 0 {
        Seq::empty()
    } else {
        pairs_of(keys.drop_last(), velocities) + Seq::new(
            velocities.len(),
            |j: int| (keys.last(), velocities[j]),
        )
    }
}

/// Every key with every velocity: the velocities of the first key first.
pub fn pairs(keys: &Vec<u8>, velocities: &Vec<u8>) -> (r: Vec<(u8, u8)>)
    ensures
        r@ == pairs_of(keys@, velocities@),
{
    let mut out: Vec<(u8, u8)> = Vec::new();
    let mut i: usize = 0;
    proof {
        assert(keys@.take(0) =~= Seq::<u8>::empty());
    }
    while i < keys.len()
        invariant
            i <= keys.len(),
            out@ == pairs_of(keys@.take(i as int), velocities@),
        decreases keys.len() - i,
    {
        let ghost before = out@;
        let key = keys[i];
        let ghost row = Seq::new(velocities@.len(), |j: int| (key, velocities@[j]));
        let mut j: usize = 0;
        proof {
            assert(before + row.take(0) =~= before);
        }
        while j < velocities.len()
            invariant
                j <= velocities.len(),
                row == Seq::new(velocities@.len(), |j: int| (key, velocities@[j])),
                out@ == before + row.take(j as int),
            decreases velocities.len() - j,
        {
            out.push((key, velocities[j]));
            j = j + 1;
            proof {
                assert(out@ =~= before + row.take(j as int));
            }
        }
        proof {
            assert(row.take(j as int) =~= row);
            assert(keys@.take(i + 1).drop_last() =~= keys@.take(i as int));
            assert(keys@.take(i + 1).last() == key);
        }
        i = i + 1;
    }
    proof {
        assert(keys@.take(i as int) =~= keys@);
    }
    out
}

/// Every key is paired with every velocity.
pub proof fn every_pair_is_there(keys: Seq<u8>, velocities: Seq<u8>, i: int, j: int)
    requires
        0 <= i < keys.len(),
        0 <= j < velocities.len(),
    ensures
        pairs_of(keys, velocities).len() == keys.len() * velocities.len(),
        0 <= i * velocities.len() + j < pairs_of(keys, velocities).len(),
        pairs_of(keys, velocities)[i * velocities.len() + j] == (keys[i], velocities[j]),
    decreases keys.len(),
{
    let n = keys.len() as int;
    let m = velocities.len() as int;
    let shorter = keys.drop_last();
    pair_count(shorter, velocities);
    pair_count(keys, velocities);
    assert(n * m == (n - 1) * m + m) by (nonlinear_arith);
    if i < n - 1 {
        every_pair_is_there(shorter, velocities, i, j);
        assert(i * m + j < (n - 1) * m) by (nonlinear_arith)
            requires
                i < n - 1,
                0 <= j < m,
                0 <= i,
        ;
    } else {
        assert(i * m == (n - 1) * m);
    }
    assert(0 <= i * m) by (nonlinear_arith)
        requires
            0 <= i,
            0 <= m,
    ;
}

proof fn pair_count(keys: Seq<u8>, velocities: Seq<u8>)
    ensures
        pairs_of(keys, velocities).len() == keys.len() * velocities.len(),
    decreases keys.len(),
{
    if keys.len() > 0 {
        pair_count(keys.drop_last(), velocities);
        let n = keys.len() as int;
        let m = velocities.len() as int;
        assert(n * m == (n - 1) * m + m) by (nonlinear_arith);
    } else {
        assert(keys.len() * velocities.len() == 0) by (nonlinear_arith)
            requires
                keys.len() == 0,
        ;
    }
}

/// `keys` holds its keys in ascending order, each once.
pub open spec fn strictly_ascending(keys: Seq<u8>) -> bool {
    forall|i: int, j: int| 0 <= i < j < keys.len() ==> keys[i] < keys[j]
}

/// How many different keys a list names.
pub open spec fn different(keys: Seq<u8>) -> nat {
    keys.to_set().len()
}

/// How many different keys a list names.
pub fn how_many(keys: &Vec<u8>) -> (r: usize)
    ensures
        r == different(keys@),
{
    let each = distinct(keys);
    proof {
        assert forall|i: int, j: int| 0 <= i < each.len() && 0 <= j < each.len() && i != j implies
            each@[i] != each@[j] by {
            if i < j {
                assert(each@[i] < each@[j]);
            } else {
                assert(each@[j] < each@[i]);
            }
        }
        assert(each@.no_duplicates());
        each@.unique_seq_to_set();
        assert forall|key: u8| each@.to_set().contains(key) == keys@.to_set().contains(key) by {
            assert(each@.contains(key) == keys@.contains(key));
        }
        assert(each@.to_set() =~= keys@.to_set());
    }
    each.len()
}

/// The keys of a list, in ascending order, each once.
pub fn distinct(all: &Vec<u8>) -> (r: Vec<u8>)
    ensures
        strictly_ascending(r@),
        forall|key: u8| #[trigger] r@.contains(key) == all@.contains(key),
{
    let mut out: Vec<u8> = Vec::new();
    let mut key: u16 = 0;
    while key < 256
        invariant
            key <= 256,
            strictly_ascending(out@),
            forall|k: int| 0 <= k < out.len() ==> (#[trigger] out@[k]) < key,
            forall|k: u8| k < key ==> #[trigger] out@.contains(k) == all@.contains(k),
        decreases 256 - key,
    {
        let k8: u8 = key as u8;
        let ghost before = out@;
        if crate::fit::texture::among(all, k8) {
            out.push(k8);
            proof {
                assert(out@[before.len() as int] == k8);
            }
        }
        proof {
            assert forall|k: u8| k < key + 1 implies #[trigger] out@.contains(k) == all@.contains(
                k,
            ) by {
                if k < key {
                    assert(before.contains(k) == all@.contains(k));
                    if before.contains(k) {
                        let at = choose|at: int| 0 <= at < before.len() && before[at] == k;
                        assert(out@[at] == k);
                    }
                    if out@.contains(k) {
                        let at = choose|at: int| 0 <= at < out@.len() && out@[at] == k;
                        assert(at < before.len());
                        assert(before[at] == k);
                    }
                } else {
                    if !all@.contains(k8) {
                        assert forall|at: int| 0 <= at < out@.len() implies out@[at] != k by {
                            assert(out@[at] < key);
                        }
                    }
                }
            }
        }
        key = key + 1;
    }
    out
}

/// An event of a phrase.
#[derive(Clone, Copy, Debug, PartialEq, Eq, Structural)]
pub enum PhraseEvent {
    NoteOn(u8, u8),
    Other,
}

/// The key that an event strikes: a note-on without velocity strikes none.
pub open spec fn struck_by(e: PhraseEvent) -> Option<u8> {
    match e {
        PhraseEvent::NoteOn(key, velocity) => if velocity > 0 {
            Some(key)
        } else {
            None
        },
        PhraseEvent::Other => None,
    }
}

/// The keys that a phrase strikes, in order.
pub open spec fn struck_keys(events: Seq<PhraseEvent>) -> Seq<u8>
    decreases events.len(),
{
    if events.len() == 0 {
        Seq::empty()
    } else {
        match struck_by(events.last()) {
            None => struck_keys(events.drop_last()),
            Some(key) => struck_keys(events.drop_last()).push(key),
        }
    }
}

/// The keys that a phrase strikes, in order.
pub fn strikes(events: &Vec<PhraseEvent>) -> (r: Vec<u8>)
    ensures
        r@ == struck_keys(events@),
        r.len() <= events.len(),
{
    let mut out: Vec<u8> = Vec::new();
    let mut i: usize = 0;
    proof {
        assert(events@.take(0) =~= Seq::<PhraseEvent>::empty());
    }
    while i < events.len()
        invariant
            i <= events.len(),
            out.len() <= i,
            out@ == struck_keys(events@.take(i as int)),
        decreases events.len() - i,
    {
        proof {
            assert(events@.take(i + 1).drop_last() =~= events@.take(i as int));
            assert(events@.take(i + 1).last() == events@[i as int]);
        }
        if let PhraseEvent::NoteOn(key, velocity) = events[i] {
            if velocity > 0 {
                out.push(key);
            }
        }
        i = i + 1;
    }
    proof {
        assert(events@.take(i as int) =~= events@);
    }
    out
}

/// How many of the keys were never recorded.
pub open spec fn unrecorded(keys: Seq<u8>, recorded: Seq<u8>) -> nat
    decreases keys.len(),
{
    if keys.len() == 0 {
        0
    } else {
        unrecorded(keys.drop_last(), recorded) + (if recorded.contains(keys.last()) {
            0nat
        } else {
            1nat
        })
    }
}

/// How many notes a phrase strikes, and how many of them on keys that were
/// never recorded.
pub fn phrase_strikes(events: &Vec<PhraseEvent>, recorded: &Vec<u8>) -> (r: (usize, usize))
    ensures
        r.0 == struck_keys(events@).len(),
        r.1 == unrecorded(struck_keys(events@), recorded@),
{
    let keys = strikes(events);
    let mut n: usize = 0;
    let mut i: usize = 0;
    proof {
        assert(keys@.take(0) =~= Seq::<u8>::empty());
    }
    while i < keys.len()
        invariant
            i <= keys.len(),
            n <= i,
            n == unrecorded(keys@.take(i as int), recorded@),
        decreases keys.len() - i,
    {
        proof {
            assert(keys@.take(i + 1).drop_last() =~= keys@.take(i as int));
            assert(keys@.take(i + 1).last() == keys@[i as int]);
        }
        if !crate::fit::texture::among(recorded, keys[i]) {
            n = n + 1;
        }
        i = i + 1;
    }
    proof {
        assert(keys@.take(i as int) =~= keys@);
    }
    (keys.len(), n)
}

/// The names of keys.
pub open spec fn names_of(keys: Seq<u8>) -> Seq<Seq<char>> {
    Seq::new(keys.len(), |i: int| name_of(keys[i]))
}

/// The names of keys.
pub fn names(keys: &Vec<u8>) -> (r: Vec<String>)
    ensures
        views(r@) == names_of(keys@),
{
    let mut out: Vec<String> = Vec::new();
    let mut i: usize = 0;
    while i < keys.len()
        invariant
            i <= keys.len(),
            out.len() == i,
            forall|k: int| 0 <= k < i ==> (#[trigger] out@[k])@ == name_of(keys@[k]),
        decreases keys.len() - i,
    {
        out.push(note_name(keys[i]));
        i = i + 1;
    }
    proof {
        assert(views(out@) =~= names_of(keys@));
    }
    out
}

/// The keys that are struck are those of the notes with a velocity, in order.
pub proof fn a_struck_key_is_a_note_that_sounds(events: Seq<PhraseEvent>)
    ensures
        struck_keys(events) == events.filter(|x: PhraseEvent| x matches PhraseEvent::NoteOn(_, v) && v > 0).map_values(|x: PhraseEvent| x->NoteOn_0),
    decreases events.len(),
{
    reveal(Seq::filter);
    let keep = |x: PhraseEvent| x matches PhraseEvent::NoteOn(_, v) && v > 0;
    let value = |x: PhraseEvent| x->NoteOn_0;
    if events.len() > 0 {
        let shorter = events.drop_last();
        a_struck_key_is_a_note_that_sounds(events.drop_last());
        assert(struck_keys(shorter) =~= shorter.filter(keep).map_values(value));
        assert(struck_keys(events) =~= events.filter(keep).map_values(value));
    } else {
        assert(struck_keys(events) =~= events.filter(keep).map_values(value));
    }
}

/// The strikes that were not recorded are those on keys that were not.
pub proof fn an_unrecorded_strike_is_on_an_unrecorded_key(keys: Seq<u8>, recorded: Seq<u8>)
    ensures
        unrecorded(keys, recorded) == keys.filter(|x: u8| !recorded.contains(x)).len(),
    decreases keys.len(),
{
    reveal(Seq::filter);
    if keys.len() > 0 {
        an_unrecorded_strike_is_on_an_unrecorded_key(keys.drop_last(), recorded);
    }
}

/// An octave up a key has the same letter and the next number.
pub proof fn an_octave_keeps_the_letter(key: u8)
    requires
        key < 244,
    ensures
        ({
            let letter = class_name(key as int % 12);
            &&& name_of(key) == letter + signed_decimal(key as int / 12 - 1)
            &&& name_of((key + 12) as u8) == letter + signed_decimal(key as int / 12)
        }),
{
}

/// The white keys are the letters from C to B, and a black key is named after
/// the white one below it.
pub proof fn a_black_key_is_sharp(class: int)
    requires
        0 <= class < 12,
    ensures
        class == 0 ==> class_name(class) == "C"@,
        class == 2 ==> class_name(class) == "D"@,
        class == 4 ==> class_name(class) == "E"@,
        class == 5 ==> class_name(class) == "F"@,
        class == 7 ==> class_name(class) == "G"@,
        class == 9 ==> class_name(class) == "A"@,
        class == 11 ==> class_name(class) == "B"@,
        class == 1 || class == 3 || class == 6 || class == 8 || class == 10 ==> class_name(class)
            == class_name(class - 1) + "#"@,
{
    reveal_strlit("#");
    reveal_strlit("C");
    reveal_strlit("D");
    reveal_strlit("F");
    reveal_strlit("G");
    reveal_strlit("A");
    reveal_strlit("C#");
    reveal_strlit("D#");
    reveal_strlit("F#");
    reveal_strlit("G#");
    reveal_strlit("A#");
    if class == 1 {
        assert("C#"@ =~= "C"@ + "#"@);
    } else if class == 3 {
        assert("D#"@ =~= "D"@ + "#"@);
    } else if class == 6 {
        assert("F#"@ =~= "F"@ + "#"@);
    } else if class == 8 {
        assert("G#"@ =~= "G"@ + "#"@);
    } else if class == 10 {
        assert("A#"@ =~= "A"@ + "#"@);
    }
}

} // verus!
