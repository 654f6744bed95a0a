//! Text in words, fields and numbers.

use crate::text::{characters, decimal, from_characters, left_in, right_in, run_of, views};
use vstd::prelude::*;

verus! {

/// A character that Unicode counts as white space.
pub open spec fn is_space(c: char) -> bool {
    let n = c as int;
    ||| 0x9 <= n <= 0xd
    ||| n == 0x20
    ||| n == 0x85
    ||| n == 0xa0
    ||| n == 0x1680
    ||| 0x2000 <= n <= 0x200a
    ||| n == 0x2028
    ||| n == 0x2029
    ||| n == 0x202f
    ||| n == 0x205f
    ||| n == 0x3000
}

/// Whether Unicode counts a character as white space.
pub fn space(c: char) -> (r: bool)
    ensures
        r == is_space(c),
{
    let n: u32 = c as u32;
    (0x9 <= n && n <= 0xd) || n == 0x20 || n == 0x85 || n == 0xa0 || n == 0x1680 || (0x2000 <= n
        && n <= 0x200a) || n == 0x2028 || n == 0x2029 || n == 0x202f || n == 0x205f || n == 0x3000
}

/// `s` without the white space at its end.
pub open spec fn without_tail(s: Seq<char>) -> Seq<char>
    decreases s.len(),
{
    if s.len() > 0 && is_space(s.last()) {
        without_tail(s.drop_last())
    } else {
        s
    }
}

/// `s` without the white space at its start.
pub open spec fn without_head(s: Seq<char>) -> Seq<char>
    decreases s.len(),
{
    if s.len() > 0 && is_space(s[0]) {
        without_head(s.skip(1))
    } else {
        s
    }
}

/// `s` without the white space at either end.
pub open spec fn bare(s: Seq<char>) -> Seq<char> {
    without_tail(without_head(s))
}

/// `s` without the white space at its end.
pub fn trim_end(s: &Vec<char>) -> (r: Vec<char>)
    ensures
        r@ == without_tail(s@),
{
    let mut n: usize = s.len();
    proof {
        assert(s@.take(n as int) =~= s@);
    }
    while n > 0 && space(s[n - 1])
        invariant
            n <= s.len(),
            without_tail(s@) == without_tail(s@.take(n as int)),
        decreases n,
    {
        proof {
            assert(s@.take(n as int).drop_last() =~= s@.take(n - 1));
        }
        n = n - 1;
    }
    let mut out: Vec<char> = Vec::new();
    let mut i: usize = 0;
    while i < n
        invariant
            i <= n <= s.len(),
            out@ == s@.take(i as int),
        decreases n - i,
    {
        out.push(s[i]);
        i = i + 1;
        proof {
            assert(out@ =~= s@.take(i as int));
        }
    }
    out
}

/// `s` without the white space at either end.
pub fn trim(s: &Vec<char>) -> (r: Vec<char>)
    ensures
        r@ == bare(s@),
{
    let mut start: usize = 0;
    proof {
        assert(s@.skip(0) =~= s@);
    }
    while start < s.len() && space(s[start])
        invariant
            start <= s.len(),
            without_head(s@) == without_head(s@.skip(start as int)),
        decreases s.len() - start,
    {
        proof {
            assert(s@.skip(start as int).skip(1) =~= s@.skip(start + 1));
        }
        start = start + 1;
    }
    let mut rest: Vec<char> = Vec::new();
    let mut i: usize = start;
    while i < s.len()
        invariant
            start <= i <= s.len(),
            rest@ == s@.skip(start as int).take(i - start),
        decreases s.len() - i,
    {
        rest.push(s[i]);
        i = i + 1;
        proof {
            assert(rest@ =~= s@.skip(start as int).take(i - start));
        }
    }
    proof {
        assert(s@.skip(start as int).take(i - start) =~= s@.skip(start as int));
    }
    trim_end(&rest)
}

/// The fields of `s` that `sep` separates; one more than there are separators.
pub open spec fn fields_of(s: Seq<char>, sep: char) -> Seq<Seq<char>>
    decreases s.len(),
{
    if s.len() == 0 {
        seq![Seq::empty()]
    } else {
        let before = fields_of(s.drop_last(), sep);
        if s.last() == sep {
            before.push(Seq::empty())
        } else {
            before.drop_last().push(before.last().push(s.last()))
        }
    }
}

/// The fields of `s` that `sep` separates.
pub fn fields(s: &str, sep: char) -> (r: Vec<String>)
    ensures
        views(r@) == fields_of(s@, sep),
        r.len() > 0,
{
    let chars = characters(s);
    let mut done: Vec<String> = Vec::new();
    let mut field = String::new();
    let mut i: usize = 0;
    proof {
        assert(chars@.take(0) =~= Seq::<char>::empty());
        assert(views(done@).push(field@) =~= seq![Seq::<char>::empty()]);
    }
    while i < chars.len()
        invariant
            i <= chars.len(),
            views(done@).push(field@) == fields_of(chars@.take(i as int), sep),
        decreases chars.len() - i,
    {
        let c = chars[i];
        let ghost before = views(done@).push(field@);
        proof {
            assert(chars@.take(i + 1).drop_last() =~= chars@.take(i as int));
            assert(chars@.take(i + 1).last() == c);
            assert(before.drop_last() =~= views(done@));
        }
        if c == sep {
            let ghost was = field@;
            let ghost list = views(done@);
            done.push(field);
            field = String::new();
            proof {
                assert(views(done@) =~= list.push(was));
            }
        } else {
            field.push(c);
        }
        i = i + 1;
    }
    let ghost list = views(done@);
    let ghost was = field@;
    done.push(field);
    proof {
        assert(views(done@) =~= list.push(was));
        assert(chars@.take(i as int) =~= chars@);
    }
    done
}

/// The words of `s`, between white space; no word is empty.
pub open spec fn words_of(s: Seq<char>) -> Seq<Seq<char>>
    decreases s.len(),
{
    if s.len() == 0 {
        Seq::empty()
    } else {
        let before = words_of(s.drop_last());
        if is_space(s.last()) {
            before
        } else if s.len() == 1 || is_space(s[s.len() - 2]) {
            before.push(seq![s.last()])
        } else {
            before.drop_last().push(before.last().push(s.last()))
        }
    }
}

proof fn a_word_is_open(s: Seq<char>)
    requires
        s.len() > 0,
        !is_space(s.last()),
    ensures
        words_of(s).len() > 0,
    decreases s.len(),
{
    if s.len() > 1 && !is_space(s[s.len() - 2]) {
        assert(s.drop_last().last() == s[s.len() - 2]);
        a_word_is_open(s.drop_last());
    }
}

/// The words of `s`, between white space.
pub fn words(s: &Vec<char>) -> (r: Vec<Vec<char>>)
    ensures
        crate::fit::tables::rows_of(r@) == words_of(s@),
{
    let mut out: Vec<Vec<char>> = Vec::new();
    let mut i: usize = 0;
    proof {
        assert(s@.take(0) =~= Seq::<char>::empty());
        assert(crate::fit::tables::rows_of(out@) =~= Seq::<Seq<char>>::empty());
    }
    while i < s.len()
        invariant
            i <= s.len(),
            crate::fit::tables::rows_of(out@) == words_of(s@.take(i as int)),
            crate::fit::tables::rows_of(out@).len() == out.len(),
        decreases s.len() - i,
    {
        let c = s[i];
        let ghost before = crate::fit::tables::rows_of(out@);
        proof {
            assert(s@.take(i + 1).drop_last() =~= s@.take(i as int));
            assert(s@.take(i + 1).last() == c);
            if i > 0 {
                assert(s@.take(i + 1)[i - 1] == s@[i - 1]);
            }
        }
        if !space(c) {
            if i == 0 || space(s[i - 1]) {
                let mut word: Vec<char> = Vec::new();
                word.push(c);
                let ghost w = word@;
                out.push(word);
                proof {
                    assert(w =~= seq![c]);
                    assert(crate::fit::tables::rows_of(out@) =~= before.push(w));
                }
            } else {
                proof {
                    assert(s@.take(i as int).last() == s@[i - 1]);
                    a_word_is_open(s@.take(i as int));
                }
                let mut word = match out.pop() {
                    Some(w) => w,
                    None => Vec::new(),
                };
                let ghost w = word@;
                let ghost shorter = crate::fit::tables::rows_of(out@);
                word.push(c);
                let ghost longer = word@;
                out.push(word);
                proof {
                    assert(shorter =~= before.drop_last());
                    assert(w == before.last());
                    assert(longer =~= w.push(c));
                    assert(crate::fit::tables::rows_of(out@) =~= shorter.push(longer));
                }
            }
        }
        i = i + 1;
    }
    proof {
        assert(s@.take(i as int) =~= s@);
    }
    out
}

/// How many bytes the UTF-8 form of a character has.
pub open spec fn byte_length(c: char) -> nat {
    let n = c as int;
    if n < 0x80 {
        1
    } else if n < 0x800 {
        2
    } else if n < 0x10000 {
        3
    } else {
        4
    }
}

/// How many bytes the UTF-8 form of a text has.
pub open spec fn bytes_of(s: Seq<char>) -> nat
    decreases s.len(),
{
    if s.len() == 0 {
        0
    } else {
        bytes_of(s.drop_last()) + byte_length(s.last())
    }
}

pub fn byte_size(c: char) -> (r: usize)
    ensures
        r == byte_length(c),
{
    let n: u32 = c as u32;
    if n < 0x80 {
        1
    } else if n < 0x800 {
        2
    } else if n < 0x10000 {
        3
    } else {
        4
    }
}

/// How far into a decimal number a text has come.
#[derive(Clone, Copy, Debug, PartialEq, Eq, Structural)]
pub enum Scan {
    Start,
    Sign,
    Whole,
    /// A point with no digit before it.
    Point,
    /// A point with digits before it, or digits after it.
    Fraction,
    Exponent,
    ExponentSign,
    ExponentDigits,
    Bad,
}

/// How far the next character takes it.
pub open spec fn scanned(at: Scan, c: char) -> Scan {
    let digit = '0' <= c <= '9';
    let sign = c == '+' || c == '-';
    let e = c == 'e' || c == 'E';
    match at {
        Scan::Start => if digit {
            Scan::Whole
        } else if sign {
            Scan::Sign
        } else if c == '.' {
            Scan::Point
        } else {
            Scan::Bad
        },
        Scan::Sign => if digit {
            Scan::Whole
        } else if c == '.' {
            Scan::Point
        } else {
            Scan::Bad
        },
        Scan::Whole => if digit {
            Scan::Whole
        } else if c == '.' {
            Scan::Fraction
        } else if e {
            Scan::Exponent
        } else {
            Scan::Bad
        },
        Scan::Point => if digit {
            Scan::Fraction
        } else {
            Scan::Bad
        },
        Scan::Fraction => if digit {
            Scan::Fraction
        } else if e {
            Scan::Exponent
        } else {
            Scan::Bad
        },
        Scan::Exponent => if digit {
            Scan::ExponentDigits
        } else if sign {
            Scan::ExponentSign
        } else {
            Scan::Bad
        },
        Scan::ExponentSign => if digit {
            Scan::ExponentDigits
        } else {
            Scan::Bad
        },
        Scan::ExponentDigits => if digit {
            Scan::ExponentDigits
        } else {
            Scan::Bad
        },
        Scan::Bad => Scan::Bad,
    }
}

pub open spec fn scan_of(s: Seq<char>) -> Scan
    decreases s.len(),
{
    if s.len() == 0 {
        Scan::Start
    } else {
        scanned(scan_of(s.drop_last()), s.last())
    }
}

/// `c` with the letters A to Z made small.
pub open spec fn small(c: char) -> char {
    if 'A' <= c <= 'Z' {
        (c as int + 32) as char
    } else {
        c
    }
}

/// `s` without one sign at its start, its letters made small.
pub open spec fn unsigned_small(s: Seq<char>) -> Seq<char> {
    let body = if s.len() > 0 && (s[0] == '+' || s[0] == '-') {
        s.skip(1)
    } else {
        s
    };
    body.map_values(|c: char| small(c))
}

/// A text that writes a floating-point number: a decimal one with an optional
/// sign, point and exponent, or one of the names of the numbers that are not
/// finite.
pub open spec fn writes_number(s: Seq<char>) -> bool {
    ||| scan_of(s) == Scan::Whole
    ||| scan_of(s) == Scan::Fraction
    ||| scan_of(s) == Scan::ExponentDigits
    ||| unsigned_small(s) == "inf"@
    ||| unsigned_small(s) == "infinity"@
    ||| unsigned_small(s) == "nan"@
}

fn scan_next(at: Scan, c: char) -> (r: Scan)
    ensures
        r == scanned(at, c),
{
    let digit = '0' <= c && c <= '9';
    let sign = c == '+' || c == '-';
    let e = c == 'e' || c == 'E';
    match at {
        Scan::Start => if digit {
            Scan::Whole
        } else if sign {
            Scan::Sign
        } else if c == '.' {
            Scan::Point
        } else {
            Scan::Bad
        },
        Scan::Sign => if digit {
            Scan::Whole
        } else if c == '.' {
            Scan::Point
        } else {
            Scan::Bad
        },
        Scan::Whole => if digit {
            Scan::Whole
        } else if c == '.' {
            Scan::Fraction
        } else if e {
            Scan::Exponent
        } else {
            Scan::Bad
        },
        Scan::Point => if digit {
            Scan::Fraction
        } else {
            Scan::Bad
        },
        Scan::Fraction => if digit {
            Scan::Fraction
        } else if e {
            Scan::Exponent
        } else {
            Scan::Bad
        },
        Scan::Exponent => if digit {
            Scan::ExponentDigits
        } else if sign {
            Scan::ExponentSign
        } else {
            Scan::Bad
        },
        Scan::ExponentSign => if digit {
            Scan::ExponentDigits
        } else {
            Scan::Bad
        },
        Scan::ExponentDigits => if digit {
            Scan::ExponentDigits
        } else {
            Scan::Bad
        },
        Scan::Bad => Scan::Bad,
    }
}

/// Whether a text writes a floating-point number.
pub fn is_number(s: &str) -> (r: bool)
    ensures
        r == writes_number(s@),
{
    let chars = characters(s);
    let mut at = Scan::Start;
    let mut i: usize = 0;
    proof {
        assert(chars@.take(0) =~= Seq::<char>::empty());
    }
    while i < chars.len()
        invariant
            i <= chars.len(),
            at == scan_of(chars@.take(i as int)),
        decreases chars.len() - i,
    {
        proof {
            assert(chars@.take(i + 1).drop_last() =~= chars@.take(i as int));
        }
        at = scan_next(at, chars[i]);
        i = i + 1;
    }
    proof {
        assert(chars@.take(i as int) =~= chars@);
    }
    if at == Scan::Whole || at == Scan::Fraction || at == Scan::ExponentDigits {
        return true;
    }
    let skip: usize = if chars.len() > 0 && (chars[0] == '+' || chars[0] == '-') {
        1
    } else {
        0
    };
    let ghost body = if skip == 1 { s@.skip(1) } else { s@ };
    let ghost lowered = body.map_values(|c: char| small(c));
    let mut name: Vec<char> = Vec::new();
    let mut k: usize = skip;
    while k < chars.len()
        invariant
            skip <= k <= chars.len(),
            skip <= 1,
            chars@ == s@,
            body == (if skip == 1 { s@.skip(1) } else { s@ }),
            lowered == body.map_values(|c: char| small(c)),
            name@ == lowered.take(k - skip),
        decreases chars.len() - k,
    {
        let c = chars[k];
        let low = if 'A' <= c && c <= 'Z' {
            (c as u8 + 32) as char
        } else {
            c
        };
        name.push(low);
        k = k + 1;
        proof {
            assert(name@ =~= lowered.take(k - skip));
        }
    }
    proof {
        assert(lowered.take(k - skip) =~= lowered);
        assert(lowered == unsigned_small(s@));
    }
    let text = from_characters(&name);
    crate::text::same(text.as_str(), "inf") || crate::text::same(text.as_str(), "infinity")
        || crate::text::same(text.as_str(), "nan")
}

/// What is said of a text that writes no floating-point number.
pub open spec fn number_fault(s: Seq<char>) -> Seq<char> {
    if s.len() == 0 {
        "cannot parse float from empty string"@
    } else {
        "invalid float literal"@
    }
}

/// What is said of a text that writes no floating-point number.
pub fn number_error(s: &str) -> (r: String)
    ensures
        r@ == number_fault(s@),
{
    if s.unicode_len() == 0 {
        String::from_str("cannot parse float from empty string")
    } else {
        String::from_str("invalid float literal")
    }
}

/// Some field is always there.
pub proof fn some_field(s: Seq<char>, sep: char)
    ensures
        fields_of(s, sep).len() > 0,
    decreases s.len(),
{
    if s.len() > 0 {
        some_field(s.drop_last(), sep);
    }
}

/// A text without the separator is one field.
pub proof fn one_field(s: Seq<char>, sep: char)
    requires
        !s.contains(sep),
    ensures
        fields_of(s, sep) == seq![s],
    decreases s.len(),
{
    if s.len() > 0 {
        let shorter = s.drop_last();
        assert(s[s.len() - 1] != sep);
        assert forall|i: int| 0 <= i < shorter.len() implies shorter[i] != sep by {
            assert(s[i] != sep);
        }
        one_field(shorter, sep);
        let only = seq![shorter];
        assert(shorter.push(s.last()) =~= s);
        assert(only.drop_last().push(s) =~= seq![s]);
        assert(only.last() == shorter);
    } else {
        assert(s =~= Seq::<char>::empty());
    }
}

/// A text that is added to a line goes on in its last field, and the fields
/// after the text's first are new.
pub proof fn fields_go_on(line: Seq<char>, more: Seq<char>, sep: char)
    ensures
        fields_of(line + more, sep) == fields_of(line, sep).drop_last().push(
            fields_of(line, sep).last() + fields_of(more, sep)[0],
        ) + fields_of(more, sep).skip(1),
    decreases more.len(),
{
    some_field(line, sep);
    some_field(more, sep);
    let f = fields_of(line, sep);
    let g = fields_of(more, sep);
    if more.len() == 0 {
        assert(line + more =~= line);
        assert(g =~= seq![Seq::<char>::empty()]);
        assert(f.last() + g[0] =~= f.last());
        assert(f.drop_last().push(f.last() + g[0]) + g.skip(1) =~= f);
    } else {
        let rest = more.drop_last();
        fields_go_on(line, rest, sep);
        some_field(rest, sep);
        let h = fields_of(rest, sep);
        let before = f.drop_last().push(f.last() + h[0]) + h.skip(1);
        assert((line + more).drop_last() =~= line + rest);
        assert((line + more).last() == more.last());
        if more.last() == sep {
            assert(g == h.push(Seq::empty()));
            assert(before.push(Seq::empty()) =~= f.drop_last().push(f.last() + g[0]) + g.skip(1));
        } else {
            assert(g == h.drop_last().push(h.last().push(more.last())));
            let now = before.drop_last().push(before.last().push(more.last()));
            if h.len() == 1 {
                assert(before.last() == f.last() + h[0]);
                assert((f.last() + h[0]).push(more.last()) =~= f.last() + g[0]);
                assert(now =~= f.drop_last().push(f.last() + g[0]) + g.skip(1));
            } else {
                assert(before.last() == h.last());
                assert(now =~= f.drop_last().push(f.last() + g[0]) + g.skip(1));
            }
        }
    }
}

/// A text without the separator goes on in the last field.
pub proof fn the_field_goes_on(line: Seq<char>, more: Seq<char>, sep: char)
    requires
        !more.contains(sep),
    ensures
        fields_of(line + more, sep) == fields_of(line, sep).drop_last().push(
            fields_of(line, sep).last() + more,
        ),
{
    fields_go_on(line, more, sep);
    one_field(more, sep);
    assert(fields_of(more, sep).skip(1) =~= Seq::<Seq<char>>::empty());
    let f = fields_of(line, sep);
    assert(f.drop_last().push(f.last() + more) + Seq::<Seq<char>>::empty() =~= f.drop_last().push(
        f.last() + more,
    ));
}

/// A separator between two texts without one ends the last field and begins the
/// next.
pub proof fn a_field_begins(line: Seq<char>, more: Seq<char>, left: Seq<char>, right: Seq<char>, sep: char)
    requires
        !left.contains(sep),
        !right.contains(sep),
        more == left + seq![sep] + right,
    ensures
        fields_of(line + more, sep) == fields_of(line, sep).drop_last().push(
            fields_of(line, sep).last() + left,
        ).push(right),
{
    one_field(left, sep);
    one_more_field(left, right, sep);
    fields_go_on(line, more, sep);
    let f = fields_of(line, sep);
    let g = fields_of(more, sep);
    assert(g == seq![left].push(right));
    assert(g.skip(1) =~= seq![right]);
    assert(f.drop_last().push(f.last() + left) + seq![right] =~= f.drop_last().push(
        f.last() + left,
    ).push(right));
}

/// A separator and a text without one add one field.
pub proof fn one_more_field(line: Seq<char>, cell: Seq<char>, sep: char)
    requires
        !cell.contains(sep),
    ensures
        fields_of(line + seq![sep] + cell, sep) == fields_of(line, sep).push(cell),
    decreases cell.len(),
{
    let whole = line + seq![sep] + cell;
    if cell.len() == 0 {
        assert(whole.drop_last() =~= line);
        assert(whole.last() == sep);
        assert(cell =~= Seq::<char>::empty());
    } else {
        let rest = cell.drop_last();
        assert(cell[cell.len() - 1] != sep);
        assert forall|i: int| 0 <= i < rest.len() implies rest[i] != sep by {
            assert(cell[i] != sep);
        }
        one_more_field(line, rest, sep);
        assert(whole.drop_last() =~= line + seq![sep] + rest);
        assert(whole.last() == cell.last());
        let before = fields_of(line, sep).push(rest);
        assert(before.drop_last() =~= fields_of(line, sep));
        assert(rest.push(cell.last()) =~= cell);
    }
}

/// Two texts without a character have none of it together.
pub proof fn both_lack(a: Seq<char>, b: Seq<char>, c: char)
    requires
        !a.contains(c),
        !b.contains(c),
    ensures
        !(a + b).contains(c),
{
    assert forall|i: int| 0 <= i < (a + b).len() implies (a + b)[i] != c by {
        if i < a.len() {
            assert(a[i] != c);
        } else {
            assert(b[i - a.len()] != c);
        }
    }
}

/// A number in decimal holds digits alone.
pub proof fn digits_alone(n: nat, c: char)
    requires
        !('0' <= c <= '9'),
    ensures
        !decimal(n).contains(c),
    decreases n,
{
    if n < 10 {
        assert forall|i: int| 0 <= i < decimal(n).len() implies decimal(n)[i] != c by {}
    } else {
        digits_alone(n / 10, c);
        let before = decimal(n / 10);
        assert forall|i: int| 0 <= i < decimal(n).len() implies decimal(n)[i] != c by {
            if i < before.len() {
                assert(before[i] != c);
            }
        }
    }
}

/// A word holds something, and no white space.
pub open spec fn is_word(s: Seq<char>) -> bool {
    s.len() > 0 && forall|i: int| 0 <= i < s.len() ==> !is_space(#[trigger] s[i])
}

/// White space alone, or nothing.
pub open spec fn is_gap(s: Seq<char>) -> bool {
    forall|i: int| 0 <= i < s.len() ==> is_space(#[trigger] s[i])
}

/// A text is open to a new word: it is empty or ends in white space.
pub open spec fn is_open(s: Seq<char>) -> bool {
    s.len() == 0 || is_space(s.last())
}

/// White space adds no word.
pub proof fn a_gap_adds_nothing(s: Seq<char>, gap: Seq<char>)
    requires
        is_gap(gap),
    ensures
        words_of(s + gap) == words_of(s),
        gap.len() > 0 ==> is_open(s + gap),
        gap.len() == 0 ==> s + gap == s,
    decreases gap.len(),
{
    if gap.len() == 0 {
        assert(s + gap =~= s);
    } else {
        let rest = gap.drop_last();
        assert(is_space(gap[gap.len() - 1]));
        assert forall|i: int| 0 <= i < rest.len() implies is_space(#[trigger] rest[i]) by {
            assert(rest[i] == gap[i]);
        }
        a_gap_adds_nothing(s, rest);
        assert((s + gap).drop_last() =~= s + rest);
        assert((s + gap).last() == gap.last());
    }
}

/// A word behind white space is a new word.
pub proof fn a_word_begins(s: Seq<char>, word: Seq<char>)
    requires
        is_open(s),
        is_word(word),
    ensures
        words_of(s + word) == words_of(s).push(word),
        !is_open(s + word),
    decreases word.len(),
{
    let whole = s + word;
    assert(whole.last() == word[word.len() - 1]);
    assert(whole.drop_last() =~= s + word.drop_last());
    if word.len() == 1 {
        assert(word.drop_last() =~= Seq::<char>::empty());
        assert(whole.drop_last() =~= s);
        assert(word =~= seq![whole.last()]);
        if s.len() > 0 {
            assert(whole[whole.len() - 2] == s.last());
        }
    } else {
        let rest = word.drop_last();
        assert forall|i: int| 0 <= i < rest.len() implies !is_space(#[trigger] rest[i]) by {
            assert(rest[i] == word[i]);
        }
        a_word_begins(s, rest);
        assert(whole[whole.len() - 2] == word[word.len() - 2]);
        let before = words_of(s + rest);
        assert(before.drop_last() =~= words_of(s));
        assert(before.last().push(whole.last()) =~= word);
    }
}

/// What is written on to a word belongs to it.
pub proof fn a_word_goes_on(s: Seq<char>, more: Seq<char>)
    requires
        !is_open(s),
        is_word(more),
    ensures
        words_of(s + more) == words_of(s).drop_last().push(words_of(s).last() + more),
        !is_open(s + more),
    decreases more.len(),
{
    let whole = s + more;
    a_word_is_open(s);
    assert(whole.last() == more[more.len() - 1]);
    assert(whole.drop_last() =~= s + more.drop_last());
    let w = words_of(s);
    if more.len() == 1 {
        assert(more.drop_last() =~= Seq::<char>::empty());
        assert(whole.drop_last() =~= s);
        assert(whole[whole.len() - 2] == s.last());
        assert(w.last().push(whole.last()) =~= w.last() + more);
    } else {
        let rest = more.drop_last();
        assert forall|i: int| 0 <= i < rest.len() implies !is_space(#[trigger] rest[i]) by {
            assert(rest[i] == more[i]);
        }
        a_word_goes_on(s, rest);
        assert(whole[whole.len() - 2] == more[more.len() - 2]);
        let before = words_of(s + rest);
        assert(before.drop_last() =~= w.drop_last());
        assert(before.last().push(whole.last()) =~= w.last() + more);
    }
}

proof fn a_run_is_a_gap(n: int)
    ensures
        is_gap(run_of(' ', n)),
{
    assert forall|i: int| 0 <= i < run_of(' ', n).len() implies is_space(
        #[trigger] run_of(' ', n)[i],
    ) by {}
}

/// A word that is set to the right of its column is a new word.
pub proof fn a_right_word_begins(s: Seq<char>, word: Seq<char>, width: int)
    requires
        is_open(s),
        is_word(word),
    ensures
        words_of(s + right_in(word, width)) == words_of(s).push(word),
        !is_open(s + right_in(word, width)),
{
    let gap = run_of(' ', width - word.len());
    a_run_is_a_gap(width - word.len());
    a_gap_adds_nothing(s, gap);
    a_word_begins(s + gap, word);
    assert(s + right_in(word, width) =~= s + gap + word);
}

/// A word that is set to the left of its column is a new word.
pub proof fn a_left_word_begins(s: Seq<char>, word: Seq<char>, width: int)
    requires
        is_open(s),
        is_word(word),
    ensures
        words_of(s + left_in(word, width)) == words_of(s).push(word),
{
    let gap = run_of(' ', width - word.len());
    a_run_is_a_gap(width - word.len());
    a_word_begins(s, word);
    a_gap_adds_nothing(s + word, gap);
    assert(s + left_in(word, width) =~= s + word + gap);
}

/// A number in decimal is a word.
pub proof fn a_number_is_a_word(n: nat)
    ensures
        is_word(decimal(n)),
    decreases n,
{
    if n >= 10 {
        a_number_is_a_word(n / 10);
        let before = decimal(n / 10);
        assert forall|i: int| 0 <= i < decimal(n).len() implies !is_space(#[trigger] decimal(n)[i]) by {
            if i < before.len() {
                assert(!is_space(before[i]));
            }
        }
    }
}

/// A word that is set to the right of a column wider than itself is a new word.
pub proof fn a_right_word_stands_apart(s: Seq<char>, word: Seq<char>, width: int)
    requires
        is_word(word),
        word.len() < width,
    ensures
        words_of(s + right_in(word, width)) == words_of(s).push(word),
        !is_open(s + right_in(word, width)),
{
    let gap = run_of(' ', width - word.len());
    a_run_is_a_gap(width - word.len());
    a_gap_adds_nothing(s, gap);
    a_word_begins(s + gap, word);
    assert(s + right_in(word, width) =~= s + gap + word);
}

/// What is written on to a word, and set to the left of its column, belongs to
/// the word.
pub proof fn a_left_word_goes_on(s: Seq<char>, more: Seq<char>, width: int)
    requires
        !is_open(s),
        is_word(more),
    ensures
        words_of(s + left_in(more, width)) == words_of(s).drop_last().push(words_of(s).last() + more),
{
    let gap = run_of(' ', width - more.len());
    a_run_is_a_gap(width - more.len());
    a_word_goes_on(s, more);
    a_gap_adds_nothing(s + more, gap);
    assert(s + left_in(more, width) =~= s + more + gap);
}

} // verus!
