//! Turning a downloaded library into a measurement input: what is asked for, and
//! what is said of it.

pub mod report;

use crate::args::{below, dashed, follows, Halt, is_flag, join_path, maybe, Stop};
use crate::text::{characters, from_characters, same, views};
use crate::words::{byte_size, bytes_of, is_space, trim_end, without_tail, words, words_of};
use vstd::prelude::*;

pub use crate::paths::short;

verus! {

/// What the command line asks for.
pub struct AdaptOptions {
    pub id: Option<String>,
    pub root: Option<String>,
    pub out: Option<String>,
    pub resample: bool,
    pub legacy_alias: bool,
    pub list: bool,
}

/// What the command line asks for.
pub ghost struct AdaptArgs {
    pub id: Option<Seq<char>>,
    pub root: Option<Seq<char>>,
    pub out: Option<Seq<char>>,
    pub resample: bool,
    pub legacy_alias: bool,
    pub list: bool,
}

impl View for AdaptOptions {
    type V = AdaptArgs;

    open spec fn view(&self) -> AdaptArgs {
        AdaptArgs {
            id: maybe(self.id),
            root: maybe(self.root),
            out: maybe(self.out),
            resample: self.resample,
            legacy_alias: self.legacy_alias,
            list: self.list,
        }
    }
}

/// What the arguments from `i` on add to what was read before them.
pub open spec fn read_from(args: Seq<Seq<char>>, i: int, so_far: AdaptArgs) -> Result<
    AdaptArgs,
    Halt,
>
    decreases args.len() - i,
{
    if i < 0 || i >= args.len() {
        Ok(so_far)
    } else if args[i] == "--list"@ {
        read_from(args, i + 1, AdaptArgs { list: true, ..so_far })
    } else if args[i] == "--resample"@ {
        read_from(args, i + 1, AdaptArgs { resample: true, ..so_far })
    } else if args[i] == "--legacy-alias"@ {
        read_from(args, i + 1, AdaptArgs { legacy_alias: true, ..so_far })
    } else if args[i] == "--root"@ {
        if i + 1 >= args.len() {
            Err(Halt::Error("--root needs a directory"@))
        } else {
            read_from(args, i + 2, AdaptArgs { root: Some(args[i + 1]), ..so_far })
        }
    } else if args[i] == "--out"@ {
        if i + 1 >= args.len() {
            Err(Halt::Error("--out needs a path"@))
        } else {
            read_from(args, i + 2, AdaptArgs { out: Some(args[i + 1]), ..so_far })
        }
    } else if dashed(args[i]) {
        Err(Halt::Error("unknown flag "@ + args[i]))
    } else {
        read_from(args, i + 1, AdaptArgs { id: Some(args[i]), ..so_far })
    }
}

/// Nothing asked for.
pub open spec fn nothing() -> AdaptArgs {
    AdaptArgs {
        id: None,
        root: None,
        out: None,
        resample: false,
        legacy_alias: false,
        list: false,
    }
}

/// What the command line asks for.
pub fn parse(args: &Vec<String>) -> (r: Result<AdaptOptions, Stop>)
    ensures
        match r {
            Ok(o) => read_from(views(args@), 0, nothing()) == Ok::<AdaptArgs, Halt>(o@),
            Err(e) => read_from(views(args@), 0, nothing()) == Err::<AdaptArgs, Halt>(e@),
        },
{
    let ghost all = views(args@);
    let mut o = AdaptOptions {
        id: None,
        root: None,
        out: None,
        resample: false,
        legacy_alias: false,
        list: false,
    };
    let mut i: usize = 0;
    while i < args.len()
        invariant
            i <= args.len(),
            all == views(args@),
            read_from(all, 0, nothing()) == read_from(all, i as int, o@),
        decreases args.len() - i,
    {
        let arg = args[i].as_str();
        if same(arg, "--list") {
            o.list = true;
            i = i + 1;
        } else if same(arg, "--resample") {
            o.resample = true;
            i = i + 1;
        } else if same(arg, "--legacy-alias") {
            o.legacy_alias = true;
            i = i + 1;
        } else if same(arg, "--root") {
            if i + 1 >= args.len() {
                return Err(Stop::Error(String::from_str("--root needs a directory")));
            }
            o.root = Some(args[i + 1].clone());
            i = i + 2;
        } else if same(arg, "--out") {
            if i + 1 >= args.len() {
                return Err(Stop::Error(String::from_str("--out needs a path")));
            }
            o.out = Some(args[i + 1].clone());
            i = i + 2;
        } else if is_flag(arg) {
            let mut text = String::from_str("unknown flag ");
            text.append(arg);
            return Err(Stop::Error(text));
        } else {
            o.id = Some(args[i].clone());
            i = i + 1;
        }
    }
    Ok(o)
}

impl AdaptOptions {
    /// The library that is asked for; none, where the catalogue is.
    pub fn library(&self) -> (r: Option<String>)
        ensures
            maybe(r) == if self.list {
                None::<Seq<char>>
            } else {
                maybe(self.id)
            },
    {
        if self.list {
            return None;
        }
        match &self.id {
            None => None,
            Some(id) => Some(id.clone()),
        }
    }

    /// Where the library lies: where it is said to, or by its name under `data`.
    pub fn root(&self, id: &str) -> (r: String)
        ensures
            r@ == match self.root {
                None => below("data"@, id@),
                Some(root) => root@,
            },
    {
        match &self.root {
            None => join_path("data", id),
            Some(root) => root.clone(),
        }
    }

    /// Where the instrument definition is written: where it is said to be, or by
    /// the library's name in its own directory.
    pub fn out(&self, root: &str, id: &str) -> (r: String)
        ensures
            r@ == match self.out {
                None => below(root@, id@ + ".sfz"@),
                Some(out) => out@,
            },
    {
        match &self.out {
            None => {
                let mut name = String::from_str(id);
                name.append(".sfz");
                join_path(root, name.as_str())
            },
            Some(out) => out.clone(),
        }
    }
}

/// What becomes of the recordings: nothing, nothing because they are at the
/// engine's rate already, or another rate.
#[derive(Clone, Copy, Debug, PartialEq, Eq, Structural)]
pub enum Resampling {
    NotAsked,
    NotNeeded,
    Needed,
}

/// What is written for a library.
#[derive(Clone, Copy, Debug, PartialEq, Eq, Structural)]
pub struct Plan {
    pub resampling: Resampling,
    /// Whether the instrument definition is written.
    pub map: bool,
    /// Whether it is written under its old name as well.
    pub alias: bool,
}

impl Plan {
    /// Whether anything on disk is touched.
    pub open spec fn writes(self) -> bool {
        self.resampling is Needed || self.map || self.alias
    }
}

/// What is written for a library: nothing, where it ships a map of its own;
/// else its map, and what else is asked for.
pub fn plan(shipped: bool, native: bool, o: &AdaptOptions) -> (r: Plan)
    ensures
        shipped ==> !r.writes() && r.resampling is NotAsked,
        !shipped ==> r == (Plan {
            resampling: if !o.resample {
                Resampling::NotAsked
            } else if native {
                Resampling::NotNeeded
            } else {
                Resampling::Needed
            },
            map: true,
            alias: o.legacy_alias,
        }),
{
    if shipped {
        return Plan { resampling: Resampling::NotAsked, map: false, alias: false };
    }
    let resampling = if !o.resample {
        Resampling::NotAsked
    } else if native {
        Resampling::NotNeeded
    } else {
        Resampling::Needed
    };
    Plan { resampling, map: true, alias: o.legacy_alias }
}

/// The extension that the recordings arrive in: a library that is resampled
/// arrives as it was published.
pub fn source_extension(native: bool, extension: &str) -> (r: String)
    ensures
        r@ == if native {
            extension@
        } else {
            "flac"@
        },
{
    if native {
        String::from_str(extension)
    } else {
        String::from_str("flac")
    }
}

/// Whether a converted file is named: every twenty-fifth is.
pub fn is_named(done: usize) -> (r: bool)
    ensures
        r == (done % 25 == 0),
{
    done % 25 == 0
}

/// The words from `i` on, after what was said before them, up to one that ends a
/// sentence where enough has been said.
pub open spec fn said_from(words: Seq<Seq<char>>, i: int, so_far: Seq<char>) -> Seq<char>
    decreases words.len() - i,
{
    if i < 0 || i >= words.len() {
        so_far
    } else {
        let now = so_far + words[i];
        if words[i].last() == '.' && bytes_of(now) > 40 {
            now
        } else {
            said_from(words, i + 1, now.push(' '))
        }
    }
}

/// The first sentence of a text that is longer than forty bytes, or the whole
/// text, with one space between each two words.
pub open spec fn first_sentence_of(text: Seq<char>) -> Seq<char> {
    without_tail(said_from(words_of(text), 0, Seq::empty()))
}

/// `count` tells whether a text is longer than forty bytes.
pub open spec fn gauges(count: usize, text: Seq<char>) -> bool {
    if bytes_of(text) > 40 {
        40 < count <= 44
    } else {
        count == bytes_of(text)
    }
}

fn say(out: &mut Vec<char>, c: char, count: usize) -> (r: usize)
    requires
        gauges(count, old(out)@),
    ensures
        final(out)@ == old(out)@.push(c),
        gauges(r, final(out)@),
{
    out.push(c);
    proof {
        assert(out@.drop_last() =~= old(out)@);
    }
    if count > 40 {
        count
    } else {
        count + byte_size(c)
    }
}

proof fn no_word_is_empty(s: Seq<char>)
    ensures
        forall|i: int| 0 <= i < words_of(s).len() ==> (#[trigger] words_of(s)[i]).len() > 0,
    decreases s.len(),
{
    if s.len() > 0 {
        no_word_is_empty(s.drop_last());
        let before = words_of(s.drop_last());
        let after = words_of(s);
        assert forall|i: int| 0 <= i < after.len() implies (#[trigger] after[i]).len() > 0 by {
            if i < before.len() - 1 {
                assert(before[i].len() > 0);
            } else if i < before.len() {
                assert(before[i].len() > 0);
            }
        }
    }
}

/// The first sentence of a text that is longer than forty bytes, or the whole
/// text.
pub fn first_sentence(text: &str) -> (r: String)
    ensures
        r@ == first_sentence_of(text@),
{
    let all = words(&characters(text));
    let ghost spoken = words_of(text@);
    let mut out: Vec<char> = Vec::new();
    let mut count: usize = 0;
    let mut i: usize = 0;
    let mut done = false;
    proof {
        no_word_is_empty(text@);
        assert(out@ =~= Seq::<char>::empty());
    }
    while i < all.len() && !done
        invariant
            i <= all.len(),
            spoken == words_of(text@),
            crate::fit::tables::rows_of(all@) == spoken,
            forall|k: int| 0 <= k < spoken.len() ==> (#[trigger] spoken[k]).len() > 0,
            gauges(count, out@),
            if done {
                said_from(spoken, 0, Seq::empty()) == out@
            } else {
                said_from(spoken, 0, Seq::empty()) == said_from(spoken, i as int, out@)
            },
        decreases all.len() - i,
    {
        let word = &all[i];
        let ghost start = out@;
        let mut k: usize = 0;
        proof {
            assert(spoken[i as int] == word@);
            assert(start + word@.take(0) =~= start);
        }
        while k < word.len()
            invariant
                k <= word.len(),
                gauges(count, out@),
                out@ == start + word@.take(k as int),
            decreases word.len() - k,
        {
            count = say(&mut out, word[k], count);
            k = k + 1;
            proof {
                assert(out@ =~= start + word@.take(k as int));
            }
        }
        proof {
            assert(word@.take(k as int) =~= word@);
            assert(word@.last() == word@[word.len() - 1]);
        }
        if word[word.len() - 1] == '.' && count > 40 {
            done = true;
        } else {
            count = say(&mut out, ' ', count);
        }
        i = i + 1;
    }
    from_characters(&trim_end(&out))
}

/// Words with one space between each two.
pub open spec fn spaced(words: Seq<Seq<char>>) -> Seq<char>
    decreases words.len(),
{
    if words.len() == 0 {
        Seq::empty()
    } else if words.len() == 1 {
        words[0]
    } else {
        spaced(words.drop_last()).push(' ') + words.last()
    }
}

/// A word holds something, and no white space.
spec fn solid(word: Seq<char>) -> bool {
    word.len() > 0 && forall|j: int| 0 <= j < word.len() ==> !is_space(#[trigger] word[j])
}

spec fn all_solid(words: Seq<Seq<char>>) -> bool {
    forall|i: int| 0 <= i < words.len() ==> solid(#[trigger] words[i])
}

proof fn words_are_solid(s: Seq<char>)
    ensures
        all_solid(words_of(s)),
    decreases s.len(),
{
    if s.len() > 0 {
        words_are_solid(s.drop_last());
        let before = words_of(s.drop_last());
        let after = words_of(s);
        assert forall|i: int| 0 <= i < after.len() implies solid(#[trigger] after[i]) by {
            if i < before.len() {
                assert(solid(before[i]));
            }
        }
    }
}

proof fn a_word_is_added(s: Seq<char>, word: Seq<char>)
    requires
        s.len() == 0 || is_space(s.last()),
        solid(word),
    ensures
        words_of(s + word) == words_of(s).push(word),
    decreases word.len(),
{
    let whole = s + word;
    assert(whole.last() == word[word.len() - 1]);
    assert(whole.drop_last() =~= s + word.drop_last());
    if word.len() == 1 {
        assert(word.drop_last() =~= Seq::<char>::empty());
        assert(whole.drop_last() =~= s);
        assert(word =~= seq![whole.last()]);
    } else {
        let rest = word.drop_last();
        assert forall|j: int| 0 <= j < rest.len() implies !is_space(#[trigger] rest[j]) by {
            assert(rest[j] == word[j]);
        }
        a_word_is_added(s, rest);
        assert(whole[whole.len() - 2] == word[word.len() - 2]);
        let before = words_of(s + rest);
        assert(before.drop_last() =~= words_of(s));
        assert(before.last().push(whole.last()) =~= word);
    }
}

proof fn spaced_words_are_found(words: Seq<Seq<char>>)
    requires
        all_solid(words),
    ensures
        words_of(spaced(words)) == words,
        words.len() > 0 ==> spaced(words).len() > 0 && !is_space(spaced(words).last()),
    decreases words.len(),
{
    if words.len() > 0 {
        let last = words.last();
        assert(solid(words[words.len() - 1]));
        assert(spaced(words).last() == last[last.len() - 1]) by {
            if words.len() > 1 {
                let head = spaced(words.drop_last()).push(' ');
                assert((head + last).last() == last[last.len() - 1]);
            }
        }
        if words.len() == 1 {
            a_word_is_added(Seq::empty(), last);
            assert(Seq::<char>::empty() + last =~= last);
            assert(words_of(Seq::<char>::empty()).push(last) =~= words);
        } else {
            let shorter = words.drop_last();
            assert forall|i: int| 0 <= i < shorter.len() implies solid(#[trigger] shorter[i]) by {
                assert(shorter[i] == words[i]);
            }
            spaced_words_are_found(shorter);
            let head = spaced(shorter).push(' ');
            assert(head.drop_last() =~= spaced(shorter));
            assert(words_of(head) == shorter);
            a_word_is_added(head, last);
            assert(shorter.push(last) =~= words);
        }
    }
}

/// What is said before word `i`.
spec fn said_before(words: Seq<Seq<char>>, i: int) -> Seq<char> {
    if i <= 0 {
        Seq::empty()
    } else {
        spaced(words.take(i)).push(' ')
    }
}

/// What is said from word `i` on is the first `n` words, and they say the same.
spec fn said_by(words: Seq<Seq<char>>, i: int, n: int) -> bool {
    let said = without_tail(said_from(words, i, said_before(words, i)));
    &&& i <= n <= words.len()
    &&& said == spaced(words.take(n))
    &&& without_tail(said_from(words.take(n), i, said_before(words, i))) == said
}

proof fn some_words_are_said(words: Seq<Seq<char>>, i: int) -> (n: int)
    requires
        all_solid(words),
        0 <= i <= words.len(),
    ensures
        said_by(words, i, n),
    decreases words.len() - i,
{
    let before = said_before(words, i);
    if i == words.len() {
        assert(words.take(i) =~= words);
        spaced_words_are_found(words);
        if i > 0 {
            assert(before.drop_last() =~= spaced(words));
            assert(without_tail(before) == without_tail(spaced(words)));
        }
        i
    } else {
        let now = before + words[i];
        let some = words.take(i + 1);
        assert(some.drop_last() =~= words.take(i));
        assert(some.last() == words[i]);
        assert(now == spaced(some)) by {
            if i == 0 {
                assert(now =~= words[0]);
            }
        }
        assert(solid(words[i]));
        if words[i].last() == '.' && bytes_of(now) > 40 {
            assert(now.last() == words[i][words[i].len() - 1]);
            assert(said_from(some, i, before) == now);
            i + 1
        } else {
            assert(now.push(' ') == said_before(words, i + 1));
            let n = some_words_are_said(words, i + 1);
            let few = words.take(n);
            assert(few[i] == words[i]);
            assert(said_from(few, i, before) == said_from(few, i + 1, now.push(' ')));
            n
        }
    }
}

/// The first sentence of a first sentence is that sentence.
pub proof fn a_first_sentence_is_its_own_first(text: Seq<char>)
    ensures
        first_sentence_of(first_sentence_of(text)) == first_sentence_of(text),
{
    let words = words_of(text);
    words_are_solid(text);
    let n = some_words_are_said(words, 0);
    let few = words.take(n);
    assert forall|i: int| 0 <= i < few.len() implies solid(#[trigger] few[i]) by {
        assert(few[i] == words[i]);
    }
    spaced_words_are_found(few);
}

/// What the command line asks for stands behind the flag of that name, the
/// library stands alone, and what no flag asks for stays as it was.
pub proof fn every_option_stands_behind_its_flag(args: Seq<Seq<char>>, i: int, so_far: AdaptArgs)
    requires
        0 <= i < args.len(),
    ensures
        read_from(args, i, so_far) matches Ok(o) ==> {
            &&& o.root == so_far.root || (o.root matches Some(x) && follows(args, "--root"@, x))
            &&& so_far.root is Some || args[i] == "--root"@ ==> o.root is Some
            &&& o.out == so_far.out || (o.out matches Some(x) && follows(args, "--out"@, x))
            &&& so_far.out is Some || args[i] == "--out"@ ==> o.out is Some
            &&& o.list ==> so_far.list || args.contains("--list"@)
            &&& so_far.list || args[i] == "--list"@ ==> o.list
            &&& o.resample ==> so_far.resample || args.contains("--resample"@)
            &&& so_far.resample || args[i] == "--resample"@ ==> o.resample
            &&& o.legacy_alias ==> so_far.legacy_alias || args.contains("--legacy-alias"@)
            &&& so_far.legacy_alias || args[i] == "--legacy-alias"@ ==> o.legacy_alias
            &&& o.id == so_far.id || (o.id matches Some(x) && args.contains(x) && !dashed(x))
        },
    decreases args.len() - i,
{
    if read_from(args, i, so_far) is Ok {
        reveal_strlit("--root");
        reveal_strlit("--out");
        reveal_strlit("--list");
        reveal_strlit("--resample");
        reveal_strlit("--legacy-alias");
        assert("--root"@.len() != "--out"@.len());
        assert("--root"@[2] != "--list"@[2]);
        assert("--root"@.len() != "--resample"@.len());
        assert("--root"@.len() != "--legacy-alias"@.len());
        assert("--out"@.len() != "--list"@.len());
        assert("--out"@.len() != "--resample"@.len());
        assert("--out"@.len() != "--legacy-alias"@.len());
        assert("--list"@.len() != "--resample"@.len());
        assert("--list"@.len() != "--legacy-alias"@.len());
        assert("--resample"@.len() != "--legacy-alias"@.len());
        if args[i] == "--list"@ {
            let next = AdaptArgs { list: true, ..so_far };
            assert(read_from(args, i, so_far) == read_from(args, i + 1, next));
            if i + 1 < args.len() {
                every_option_stands_behind_its_flag(args, i + 1, next);
            }
        } else if args[i] == "--resample"@ {
            let next = AdaptArgs { resample: true, ..so_far };
            assert(read_from(args, i, so_far) == read_from(args, i + 1, next));
            if i + 1 < args.len() {
                every_option_stands_behind_its_flag(args, i + 1, next);
            }
        } else if args[i] == "--legacy-alias"@ {
            let next = AdaptArgs { legacy_alias: true, ..so_far };
            assert(read_from(args, i, so_far) == read_from(args, i + 1, next));
            if i + 1 < args.len() {
                every_option_stands_behind_its_flag(args, i + 1, next);
            }
        } else if args[i] == "--root"@ {
            let next = AdaptArgs { root: Some(args[i + 1]), ..so_far };
            assert(read_from(args, i, so_far) == read_from(args, i + 2, next));
            if i + 2 < args.len() {
                every_option_stands_behind_its_flag(args, i + 2, next);
            }
        } else if args[i] == "--out"@ {
            let next = AdaptArgs { out: Some(args[i + 1]), ..so_far };
            assert(read_from(args, i, so_far) == read_from(args, i + 2, next));
            if i + 2 < args.len() {
                every_option_stands_behind_its_flag(args, i + 2, next);
            }
        } else {
            let next = AdaptArgs { id: Some(args[i]), ..so_far };
            assert(read_from(args, i, so_far) == read_from(args, i + 1, next));
            if i + 1 < args.len() {
                every_option_stands_behind_its_flag(args, i + 1, next);
            }
        }
    }
}

} // verus!
