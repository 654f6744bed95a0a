//! Listening material for a preset: where it goes, and which of its keys were
//! recorded.

pub mod report;

use crate::args::{nth_or, or_default};
use crate::fit::texture::among;
use crate::keys::{distinct, strictly_ascending, strikes, struck_keys, PhraseEvent};
use crate::paths::{file_stem, name_in, stem_of};
use crate::text::views;
use vstd::prelude::*;

verus! {

/// Where the library, the preset and the output are.
pub struct Paths {
    pub data: String,
    pub preset: String,
    pub out: String,
}

/// Where the material goes unless it is said: a directory named as the preset
/// is.
pub open spec fn default_out(preset: Seq<char>) -> Seq<char> {
    "renders/"@ + match name_in(preset) {
        None => "preset"@,
        Some(name) => stem_of(name),
    }
}

/// Where the library, the preset and the output are: the first three arguments.
pub fn paths(args: &Vec<String>) -> (r: Paths)
    ensures
        r.data@ == or_default(views(args@), 0, "data/salamander"@),
        r.preset@ == or_default(views(args@), 1, "presets/salamander-c5.toml"@),
        r.out@ == or_default(views(args@), 2, default_out(r.preset@)),
{
    let data = nth_or(args, 0, "data/salamander");
    let preset = nth_or(args, 1, "presets/salamander-c5.toml");
    let mut default = String::from_str("renders/");
    match file_stem(preset.as_str()) {
        None => default.append("preset"),
        Some(stem) => default.append(stem.as_str()),
    }
    let out = nth_or(args, 2, default.as_str());
    Paths { data, preset, out }
}

/// The keys that a phrase strikes, in ascending order, each once.
pub fn phrase_keys(events: &Vec<PhraseEvent>) -> (r: Vec<u8>)
    ensures
        strictly_ascending(r@),
        forall|key: u8| #[trigger] r@.contains(key) == struck_keys(events@).contains(key),
{
    distinct(&strikes(events))
}

/// Those of some keys that are among the recorded ones, in order.
pub open spec fn own_takes(keys: Seq<u8>, recorded: Seq<u8>) -> Seq<u8>
    decreases keys.len(),
{
    if keys.len() == 0 {
        Seq::empty()
    } else if recorded.contains(keys.last()) {
        own_takes(keys.drop_last(), recorded).push(keys.last())
    } else {
        own_takes(keys.drop_last(), recorded)
    }
}

/// Those of some keys that are among the recorded ones, in order.
pub fn takes(keys: &Vec<u8>, recorded: &Vec<u8>) -> (r: Vec<u8>)
    ensures
        r@ == own_takes(keys@, recorded@),
{
    let mut out: Vec<u8> = Vec::new();
    let mut i: usize = 0;
    proof {
        assert(keys@.take(0) =~= Seq::<u8>::empty());
    }
    while i < keys.len()
        invariant
            i <= keys.len(),
            out@ == own_takes(keys@.take(i as int), recorded@),
        decreases keys.len() - i,
    {
        proof {
            assert(keys@.take(i + 1).drop_last() =~= keys@.take(i as int));
            assert(keys@.take(i + 1).last() == keys@[i as int]);
        }
        if among(recorded, keys[i]) {
            out.push(keys[i]);
        }
        i = i + 1;
    }
    proof {
        assert(keys@.take(i as int) =~= keys@);
    }
    out
}

/// The takes are of the keys that were recorded, in order.
pub proof fn a_take_is_of_a_recorded_key(keys: Seq<u8>, recorded: Seq<u8>)
    ensures
        own_takes(keys, recorded) == keys.filter(|x: u8| recorded.contains(x)),
    decreases keys.len(),
{
    reveal(Seq::filter);
    let keep = |x: u8| recorded.contains(x);
    if keys.len() > 0 {
        let shorter = keys.drop_last();
        a_take_is_of_a_recorded_key(keys.drop_last(), recorded);
        assert(own_takes(shorter, recorded) =~= shorter.filter(keep));
        assert(own_takes(keys, recorded) =~= keys.filter(keep));
    } else {
        assert(own_takes(keys, recorded) =~= keys.filter(keep));
    }
}

} // verus!
