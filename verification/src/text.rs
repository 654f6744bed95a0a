//! Text, character by character.

use vstd::prelude::*;

verus! {

/// `std::string::String::push`: one character is added at the end.
pub assume_specification[ std::string::String::push ](s: &mut String, c: char)
    ensures
        final(s)@ == old(s)@.push(c),
;

/// What the `Debug` form of a text is: the text in double quotes, with the
/// escapes that the standard library chooses.
pub uninterp spec fn quoted(s: Seq<char>) -> Seq<char>;

/// The `Debug` form of a text, as `std::format` writes it. The contract names
/// that form and leaves open which characters it escapes.
#[verifier::external_body]
pub(crate) fn quote(s: &str) -> (r: String)
    ensures
        r@ == quoted(s@),
{
    format!("{:?}", s)
}

/// The characters of each string of a list.
pub open spec fn views(parts: Seq<String>) -> Seq<Seq<char>> {
    Seq::new(parts.len(), |i: int| parts[i]@)
}

/// The decimal digit `d`.
pub open spec fn digit(d: int) -> char {
    (d + 48) as char
}

/// `n` in decimal, without leading zeros.
pub open spec fn decimal(n: nat) -> Seq<char>
    decreases n,
{
    if n < 10 {
        seq![digit(n as int)]
    } else {
        decimal(n / 10).push(digit((n % 10) as int))
    }
}

/// `n` in decimal, with its sign where it is negative.
pub open spec fn signed_decimal(n: int) -> Seq<char> {
    if n < 0 {
        seq!['-'] + decimal((-n) as nat)
    } else {
        decimal(n as nat)
    }
}

/// `c`, `n` times.
pub open spec fn run_of(c: char, n: int) -> Seq<char> {
    Seq::new(if n < 0 { 0 } else { n as nat }, |i: int| c)
}

/// `s` with spaces before it up to `width` characters.
pub open spec fn right_in(s: Seq<char>, width: int) -> Seq<char> {
    run_of(' ', width - s.len()) + s
}

/// `s` with spaces after it up to `width` characters.
pub open spec fn left_in(s: Seq<char>, width: int) -> Seq<char> {
    s + run_of(' ', width - s.len())
}

/// The parts with `sep` between each two of them.
pub open spec fn joined(parts: Seq<Seq<char>>, sep: Seq<char>) -> Seq<char>
    decreases parts.len(),
{
    if parts.len() == 0 {
        Seq::empty()
    } else if parts.len() == 1 {
        parts[0]
    } else {
        joined(parts.drop_last(), sep) + sep + parts.last()
    }
}

/// `s` begins with `start`.
pub open spec fn begins(s: Seq<char>, start: Seq<char>) -> bool {
    s.len() >= start.len() && s.subrange(0, start.len() as int) == start
}

/// `n` in decimal.
pub fn print(n: u64) -> (r: String)
    ensures
        r@ == decimal(n as nat),
    decreases n,
{
    let mut out = if n < 10 {
        String::new()
    } else {
        print(n / 10)
    };
    let c = (48u8 + (n % 10) as u8) as char;
    out.push(c);
    proof {
        assert(n < 10 ==> out@ =~= seq![digit(n as int)]);
    }
    out
}

/// `n` in decimal, with its sign where it is negative.
pub fn print_signed(n: i32) -> (r: String)
    ensures
        r@ == signed_decimal(n as int),
{
    if n < 0 {
        let mut out = String::new();
        out.push('-');
        out.append(print((-(n as i64)) as u64).as_str());
        proof {
            assert(Seq::<char>::empty().push('-') =~= seq!['-']);
        }
        out
    } else {
        print(n as u64)
    }
}

/// Adds `c` to `out`, `n` times.
pub fn push_run(out: &mut String, c: char, n: usize)
    ensures
        final(out)@ == old(out)@ + run_of(c, n as int),
{
    let mut i: usize = 0;
    proof {
        assert(old(out)@ + run_of(c, 0) =~= old(out)@);
    }
    while i < n
        invariant
            i <= n,
            out@ == old(out)@ + run_of(c, i as int),
        decreases n - i,
    {
        out.push(c);
        i = i + 1;
        proof {
            assert(out@ =~= old(out)@ + run_of(c, i as int));
        }
    }
}

/// Adds `s` to `out`, right-aligned in `width` characters.
pub fn push_right(out: &mut String, s: &str, width: usize)
    ensures
        final(out)@ == old(out)@ + right_in(s@, width as int),
{
    let n: usize = s.unicode_len();
    if n < width {
        push_run(out, ' ', width - n);
    } else {
        proof {
            assert(old(out)@ + run_of(' ', width - n) =~= old(out)@);
        }
    }
    out.append(s);
    proof {
        assert(old(out)@ + run_of(' ', width - n) + s@ =~= old(out)@ + right_in(s@, width as int));
    }
}

/// Adds `s` to `out`, left-aligned in `width` characters.
pub fn push_left(out: &mut String, s: &str, width: usize)
    ensures
        final(out)@ == old(out)@ + left_in(s@, width as int),
{
    let n: usize = s.unicode_len();
    out.append(s);
    if n < width {
        push_run(out, ' ', width - n);
    } else {
        proof {
            assert(run_of(' ', width - n) =~= Seq::<char>::empty());
            assert(s@ + run_of(' ', width - n) =~= s@);
        }
    }
    proof {
        assert(old(out)@ + s@ + run_of(' ', width - n) =~= old(out)@ + left_in(s@, width as int));
    }
}

/// The parts with `sep` between each two of them.
pub fn join(parts: &Vec<String>, sep: &str) -> (r: String)
    ensures
        r@ == joined(views(parts@), sep@),
{
    let mut out = String::new();
    let mut i: usize = 0;
    proof {
        assert(views(parts@).take(0) =~= Seq::<Seq<char>>::empty());
    }
    while i < parts.len()
        invariant
            i <= parts.len(),
            out@ == joined(views(parts@).take(i as int), sep@),
        decreases parts.len() - i,
    {
        let ghost before = views(parts@).take(i as int);
        let ghost after = views(parts@).take(i + 1);
        proof {
            assert(after.drop_last() =~= before);
            assert(after.last() == parts@[i as int]@);
        }
        if i > 0 {
            out.append(sep);
        } else {
            proof {
                assert(Seq::<char>::empty() + parts@[0]@ =~= parts@[0]@);
            }
        }
        out.append(parts[i].as_str());
        i = i + 1;
    }
    proof {
        assert(views(parts@).take(i as int) =~= views(parts@));
    }
    out
}

/// The characters of `s`.
pub fn characters(s: &str) -> (r: Vec<char>)
    ensures
        r@ == s@,
{
    let mut out: Vec<char> = Vec::new();
    let n: usize = s.unicode_len();
    let mut i: usize = 0;
    while i < n
        invariant
            n == s@.len(),
            i <= n,
            out@ == s@.take(i as int),
        decreases n - i,
    {
        out.push(s.get_char(i));
        i = i + 1;
        proof {
            assert(out@ =~= s@.take(i as int));
        }
    }
    proof {
        assert(s@.take(n as int) =~= s@);
    }
    out
}

/// The text of a list of characters.
pub fn from_characters(chars: &Vec<char>) -> (r: String)
    ensures
        r@ == chars@,
{
    let mut out = String::new();
    let mut i: usize = 0;
    while i < chars.len()
        invariant
            i <= chars.len(),
            out@ == chars@.take(i as int),
        decreases chars.len() - i,
    {
        out.push(chars[i]);
        i = i + 1;
        proof {
            assert(out@ =~= chars@.take(i as int));
        }
    }
    proof {
        assert(chars@.take(i as int) =~= chars@);
    }
    out
}

/// Whether two texts are the same.
pub fn same(a: &str, b: &str) -> (r: bool)
    ensures
        r == (a@ == b@),
{
    let n: usize = a.unicode_len();
    if n != b.unicode_len() {
        return false;
    }
    let mut i: usize = 0;
    while i < n
        invariant
            n == a@.len(),
            n == b@.len(),
            i <= n,
            forall|k: int| 0 <= k < i ==> a@[k] == b@[k],
        decreases n - i,
    {
        if a.get_char(i) != b.get_char(i) {
            return false;
        }
        i = i + 1;
    }
    proof {
        assert(a@ =~= b@);
    }
    true
}

/// Whether `s` begins with `start`.
pub fn starts_with(s: &str, start: &str) -> (r: bool)
    ensures
        r == begins(s@, start@),
{
    let n: usize = start.unicode_len();
    if s.unicode_len() < n {
        return false;
    }
    let mut i: usize = 0;
    while i < n
        invariant
            n == start@.len(),
            n <= s@.len(),
            i <= n,
            forall|k: int| 0 <= k < i ==> s@[k] == start@[k],
        decreases n - i,
    {
        if s.get_char(i) != start.get_char(i) {
            proof {
                assert(s@.subrange(0, n as int)[i as int] != start@[i as int]);
            }
            return false;
        }
        i = i + 1;
    }
    proof {
        assert(s@.subrange(0, n as int) =~= start@);
    }
    true
}

/// Whether `name` is one of `names`.
pub fn listed(names: &Vec<String>, name: &str) -> (r: bool)
    ensures
        r == views(names@).contains(name@),
{
    let mut i: usize = 0;
    while i < names.len()
        invariant
            i <= names.len(),
            forall|k: int| 0 <= k < i ==> names@[k]@ != name@,
        decreases names.len() - i,
    {
        if same(names[i].as_str(), name) {
            proof {
                assert(views(names@)[i as int] == name@);
            }
            return true;
        }
        i = i + 1;
    }
    false
}

/// Why a text is not a whole number in range.
#[derive(Clone, Copy, Debug, PartialEq, Eq, Structural)]
pub enum NumberError {
    Empty,
    InvalidDigit,
    TooLarge,
}

impl NumberError {
    /// What the error says.
    pub open spec fn says(self) -> Seq<char> {
        match self {
            NumberError::Empty => "cannot parse integer from empty string"@,
            NumberError::InvalidDigit => "invalid digit found in string"@,
            NumberError::TooLarge => "number too large to fit in target type"@,
        }
    }

    /// What the error says.
    pub fn message(&self) -> (r: String)
        ensures
            r@ == self.says(),
    {
        match self {
            NumberError::Empty => String::from_str("cannot parse integer from empty string"),
            NumberError::InvalidDigit => String::from_str("invalid digit found in string"),
            NumberError::TooLarge => String::from_str("number too large to fit in target type"),
        }
    }
}

/// Reads digits left to right; the first character that is no digit, or the
/// first digit that takes the number past `max`, decides the error.
pub open spec fn digits_value(s: Seq<char>, max: nat) -> Result<nat, NumberError>
    decreases s.len(),
{
    if s.len() == 0 {
        Ok(0)
    } else {
        match digits_value(s.drop_last(), max) {
            Err(e) => Err(e),
            Ok(v) => if !('0' <= s.last() <= '9') {
                Err(NumberError::InvalidDigit)
            } else if v * 10 + (s.last() as int - 48) > max {
                Err(NumberError::TooLarge)
            } else {
                Ok((v * 10 + (s.last() as int - 48)) as nat)
            },
        }
    }
}

/// The whole number that `s` writes in decimal, at most `max`; one leading
/// plus sign is allowed.
pub open spec fn whole(s: Seq<char>, max: nat) -> Result<nat, NumberError> {
    if s.len() == 0 {
        Err(NumberError::Empty)
    } else if s.len() == 1 && (s[0] == '+' || s[0] == '-') {
        Err(NumberError::InvalidDigit)
    } else if s[0] == '+' {
        digits_value(s.skip(1), max)
    } else {
        digits_value(s, max)
    }
}

/// Reads a whole number of at most `max`.
pub fn parse_whole(s: &str, max: u64) -> (r: Result<u64, NumberError>)
    ensures
        match r {
            Ok(v) => whole(s@, max as nat) == Ok::<nat, NumberError>(v as nat),
            Err(e) => whole(s@, max as nat) == Err::<nat, NumberError>(e),
        },
{
    let n: usize = s.unicode_len();
    if n == 0 {
        return Err(NumberError::Empty);
    }
    let first = s.get_char(0);
    if n == 1 && (first == '+' || first == '-') {
        return Err(NumberError::InvalidDigit);
    }
    let start: usize = if first == '+' {
        1
    } else {
        0
    };
    let ghost body = if first == '+' { s@.skip(1) } else { s@ };
    let mut value: u64 = 0;
    let mut i: usize = start;
    proof {
        assert(body.take(0) =~= Seq::<char>::empty());
    }
    while i < n
        invariant
            n == s@.len(),
            start <= i <= n,
            start <= 1,
            body == (if start == 1 { s@.skip(1) } else { s@ }),
            whole(s@, max as nat) == digits_value(body, max as nat),
            digits_value(body.take(i - start), max as nat) == Ok::<nat, NumberError>(value as nat),
            value <= max,
        decreases n - i,
    {
        let c = s.get_char(i);
        proof {
            assert(body.take(i + 1 - start).drop_last() =~= body.take(i - start));
            assert(body.take(i + 1 - start).last() == c);
            assert(body.len() == n - start);
        }
        if !('0' <= c && c <= '9') {
            proof {
                digits_error_stays(body, i + 1 - start, max as nat);
            }
            return Err(NumberError::InvalidDigit);
        }
        let d: u64 = (c as u64) - 48;
        if d > max || value > (max - d) / 10 {
            proof {
                digits_error_stays(body, i + 1 - start, max as nat);
            }
            return Err(NumberError::TooLarge);
        }
        value = value * 10 + d;
        i = i + 1;
    }
    proof {
        assert(body.take(n - start) =~= body);
    }
    Ok(value)
}

proof fn digits_error_stays(s: Seq<char>, k: int, max: nat)
    requires
        0 <= k <= s.len(),
        digits_value(s.take(k), max) is Err,
    ensures
        digits_value(s, max) == digits_value(s.take(k), max),
    decreases s.len(),
{
    if k == s.len() {
        assert(s.take(k) =~= s);
    } else {
        assert(s.drop_last().take(k) =~= s.take(k));
        digits_error_stays(s.drop_last(), k, max);
    }
}

/// Each name between backticks.
pub open spec fn ticked_of(names: Seq<Seq<char>>) -> Seq<Seq<char>> {
    Seq::new(names.len(), |i: int| "`"@ + names[i] + "`"@)
}

/// Each name between backticks.
pub fn ticked(names: &Vec<String>) -> (r: Vec<String>)
    ensures
        views(r@) == ticked_of(views(names@)),
{
    let mut out: Vec<String> = Vec::new();
    let mut i: usize = 0;
    while i < names.len()
        invariant
            i <= names.len(),
            out.len() == i,
            forall|k: int| 0 <= k < i ==> (#[trigger] out@[k])@ == "`"@ + names@[k]@ + "`"@,
        decreases names.len() - i,
    {
        let mut name = String::from_str("`");
        name.append(names[i].as_str());
        name.append("`");
        out.push(name);
        i = i + 1;
    }
    proof {
        assert(views(out@) =~= ticked_of(views(names@)));
    }
    out
}

/// A text, or a dash where there is none.
pub open spec fn or_dash_text(v: Option<String>) -> Seq<char> {
    match v {
        None => "-"@,
        Some(s) => s@,
    }
}

/// A text, or a dash where there is none.
pub fn or_dash(v: &Option<String>) -> (r: String)
    ensures
        r@ == or_dash_text(*v),
{
    match v {
        None => String::from_str("-"),
        Some(s) => s.clone(),
    }
}

} // verus!
