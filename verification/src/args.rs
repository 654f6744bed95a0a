//! What the tools' command lines share.

use crate::text::{begins, same, starts_with, views, whole, NumberError};
use vstd::prelude::*;

verus! {

/// The file name of the reference piano's instrument definition.
pub const INSTRUMENT: &'static str = "SalamanderGrandPiano-V3+20200602.sfz";

/// Why a command line is not run: with an error, or because a flag stands
/// without its value where the program has no answer to that but to stop.
#[derive(Debug)]
pub enum Stop {
    Error(String),
    Panic(String),
}

/// The words of a [`Stop`].
pub ghost enum Halt {
    Error(Seq<char>),
    Panic(Seq<char>),
}

impl View for Stop {
    type V = Halt;

    open spec fn view(&self) -> Halt {
        match self {
            Stop::Error(s) => Halt::Error(s@),
            Stop::Panic(s) => Halt::Panic(s@),
        }
    }
}

/// The characters of a text that may be there.
pub open spec fn maybe(s: Option<String>) -> Option<Seq<char>> {
    match s {
        None => None,
        Some(t) => Some(t@),
    }
}

/// Argument `n`, or `default` where there are not so many.
pub open spec fn or_default(args: Seq<Seq<char>>, n: int, default: Seq<char>) -> Seq<char> {
    if n < args.len() {
        args[n]
    } else {
        default
    }
}

/// Argument `n`, or `default` where there are not so many.
pub fn nth_or(args: &Vec<String>, n: usize, default: &str) -> (r: String)
    ensures
        r@ == or_default(views(args@), n as int, default@),
{
    if n < args.len() {
        args[n].clone()
    } else {
        String::from_str(default)
    }
}

/// `name` below `dir`: a separator is put between them unless there is one or
/// `dir` is empty, and a `name` that starts at the root stands alone.
pub open spec fn below(dir: Seq<char>, name: Seq<char>) -> Seq<char> {
    if begins(name, "/"@) {
        name
    } else if dir.len() == 0 || dir.last() == '/' {
        dir + name
    } else {
        dir + "/"@ + name
    }
}

/// `name` below `dir`.
pub fn join_path(dir: &str, name: &str) -> (r: String)
    ensures
        r@ == below(dir@, name@),
{
    if starts_with(name, "/") {
        return String::from_str(name);
    }
    let mut out = String::from_str(dir);
    let n: usize = dir.unicode_len();
    if n > 0 && dir.get_char(n - 1) != '/' {
        out.append("/");
    }
    out.append(name);
    out
}

/// What is said where the reference piano is not on disk.
pub open spec fn missing_text(sfz: Seq<char>) -> Seq<char> {
    "the reference piano is not here: "@ + sfz
        + "\nrun data/fetch_salamander.sh first (707 MiB)."@
}

/// What is said where the reference piano is not on disk.
pub fn missing_piano(sfz: &str) -> (r: String)
    ensures
        r@ == missing_text(sfz@),
{
    let mut out = String::from_str("the reference piano is not here: ");
    out.append(sfz);
    out.append("\nrun data/fetch_salamander.sh first (707 MiB).");
    out
}

/// An argument that begins with two dashes.
pub open spec fn dashed(arg: Seq<char>) -> bool {
    begins(arg, "--"@)
}

/// Whether an argument begins with two dashes.
pub fn is_flag(arg: &str) -> (r: bool)
    ensures
        r == dashed(arg@),
{
    starts_with(arg, "--")
}

/// The arguments from `i` on that stand for themselves, in order: those that do
/// not begin with two dashes, and do not follow one of the flags in `valued`,
/// which take the argument behind them.
pub open spec fn standing(args: Seq<Seq<char>>, i: int, valued: Seq<Seq<char>>) -> Seq<Seq<char>>
    decreases args.len() - i,
{
    if i < 0 || i >= args.len() {
        Seq::empty()
    } else if valued.contains(args[i]) && i + 1 < args.len() {
        standing(args, i + 2, valued)
    } else if valued.contains(args[i]) {
        Seq::empty()
    } else if dashed(args[i]) {
        standing(args, i + 1, valued)
    } else {
        seq![args[i]] + standing(args, i + 1, valued)
    }
}

/// The arguments that stand for themselves, in order; `valued` lists the flags
/// that take the argument behind them.
pub fn positional(args: &Vec<String>, valued: &Vec<String>) -> (r: Vec<String>)
    ensures
        views(r@) == standing(views(args@), 0, views(valued@)),
{
    let ghost all = views(args@);
    let ghost flags = views(valued@);
    let mut out: Vec<String> = Vec::new();
    let mut i: usize = 0;
    proof {
        assert(views(out@) + standing(all, 0, flags) =~= standing(all, 0, flags));
    }
    while i < args.len()
        invariant
            all == views(args@),
            flags == views(valued@),
            views(out@) + standing(all, i as int, flags) == standing(all, 0, flags),
        decreases args.len() - i,
    {
        let arg = args[i].as_str();
        proof {
            assert(all[i as int] == arg@);
        }
        if crate::text::listed(valued, arg) {
            if i + 1 >= args.len() {
                proof {
                    assert(views(out@) + Seq::empty() =~= views(out@));
                }
                return out;
            }
            i = i + 2;
        } else if is_flag(arg) {
            i = i + 1;
        } else {
            let ghost before = views(out@);
            out.push(args[i].clone());
            proof {
                assert(views(out@) =~= before.push(arg@));
                assert(views(out@) + standing(all, i + 1, flags) =~= before + (seq![arg@]
                    + standing(all, i + 1, flags)));
            }
            i = i + 1;
        }
    }
    proof {
        assert(views(out@) + standing(all, i as int, flags) =~= views(out@));
    }
    out
}

/// Whether a flag is among the arguments.
pub fn has_flag(args: &Vec<String>, flag: &str) -> (r: bool)
    ensures
        r == views(args@).contains(flag@),
{
    crate::text::listed(args, flag)
}

/// The first place of `flag` among the arguments from `from` on.
pub open spec fn place_of(args: Seq<Seq<char>>, flag: Seq<char>, from: int) -> Option<int>
    decreases args.len() - from,
{
    if from < 0 || from >= args.len() {
        None
    } else if args[from] == flag {
        Some(from)
    } else {
        place_of(args, flag, from + 1)
    }
}

/// The argument after the first `flag`, where there is one.
pub open spec fn value_after(args: Seq<Seq<char>>, flag: Seq<char>) -> Option<Seq<char>> {
    match place_of(args, flag, 0) {
        None => None,
        Some(i) => if i + 1 < args.len() {
            Some(args[i + 1])
        } else {
            None
        },
    }
}

/// The argument after the first `flag`, where there is one.
pub fn flag_value(args: &Vec<String>, flag: &str) -> (r: Option<String>)
    ensures
        maybe(r) == value_after(views(args@), flag@),
{
    let mut i: usize = 0;
    while i < args.len()
        invariant
            i <= args.len(),
            place_of(views(args@), flag@, 0) == place_of(views(args@), flag@, i as int),
        decreases args.len() - i,
    {
        if same(args[i].as_str(), flag) {
            if i + 1 < args.len() {
                return Some(args[i + 1].clone());
            }
            return None;
        }
        i = i + 1;
    }
    None
}

/// The value stands behind the flag among the arguments.
pub open spec fn follows(args: Seq<Seq<char>>, flag: Seq<char>, value: Seq<char>) -> bool {
    exists|j: int|
        0 <= j && j + 1 < args.len() && #[trigger] args[j] == flag && args[j + 1] == value
}

/// Some argument behind the flag says this number.
pub open spec fn follows_number(args: Seq<Seq<char>>, flag: Seq<char>, n: nat) -> bool {
    exists|j: int|
        0 <= j && j + 1 < args.len() && #[trigger] args[j] == flag && whole(
            args[j + 1],
            usize::MAX as nat,
        ) == Ok::<nat, NumberError>(n)
}

/// What stands behind a flag further on stands behind it among all.
pub proof fn it_follows_further_on(args: Seq<Seq<char>>, n: int)
    requires
        0 <= n <= args.len(),
    ensures
        forall|flag: Seq<char>, value: Seq<char>| #[trigger]
            follows(args.skip(n), flag, value) ==> follows(args, flag, value),
        forall|x: Seq<char>| #[trigger] args.skip(n).contains(x) ==> args.contains(x),
{
    let rest = args.skip(n);
    assert forall|flag: Seq<char>, value: Seq<char>| #[trigger] follows(
        rest,
        flag,
        value,
    ) implies follows(args, flag, value) by {
        let j = choose|j: int|
            0 <= j && j + 1 < rest.len() && #[trigger] rest[j] == flag && rest[j + 1] == value;
        assert(args[j + n] == flag && args[j + n + 1] == value);
    }
    assert forall|x: Seq<char>| #[trigger] rest.contains(x) implies args.contains(x) by {
        let j = choose|j: int| 0 <= j < rest.len() && rest[j] == x;
        assert(args[j + n] == x);
    }
}

/// What begins with a list and one more begins with the list.
pub proof fn one_more_begins<T>(a: Seq<T>, x: T, b: Seq<T>)
    requires
        a.push(x).is_prefix_of(b),
    ensures
        a.is_prefix_of(b),
        b.len() > a.len(),
        b[a.len() as int] == x,
{
    let longer = a.push(x);
    assert(longer == b.subrange(0, longer.len() as int));
    assert(longer[a.len() as int] == x);
    assert(b.subrange(0, longer.len() as int)[a.len() as int] == b[a.len() as int]);
    assert forall|i: int| 0 <= i < a.len() implies a[i] == b[i] by {
        assert(longer[i] == a[i]);
        assert(b.subrange(0, longer.len() as int)[i] == b[i]);
    }
    assert(a =~= b.subrange(0, a.len() as int));
}

} // verus!
