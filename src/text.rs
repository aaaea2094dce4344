//! Small text utilities shared by the configuration writer and the loaders.
use vstd::prelude::*;
use vstd::string::StringExecFns;

verus! {

/// The character of a digit below sixteen, lower-case for ten and above.
pub open spec fn digit_char(d: nat) -> char {
    if d == 0 { '0' }
    else if d == 1 { '1' }
    else if d == 2 { '2' }
    else if d == 3 { '3' }
    else if d == 4 { '4' }
    else if d == 5 { '5' }
    else if d == 6 { '6' }
    else if d == 7 { '7' }
    else if d == 8 { '8' }
    else if d == 9 { '9' }
    else if d == 10 { 'a' }
    else if d == 11 { 'b' }
    else if d == 12 { 'c' }
    else if d == 13 { 'd' }
    else if d == 14 { 'e' }
    else { 'f' }
}

/// The digits of `n` in hexadecimal (`hex`) or decimal, most significant
/// first, with no leading zero ("0" for zero).
pub open spec fn digits(n: nat, hex: bool) -> Seq<char>
    decreases n,
{
    if hex {
        if n < 16 { seq![digit_char(n)] } else { digits(n / 16, hex).push(digit_char(n % 16)) }
    } else {
        if n < 10 { seq![digit_char(n)] } else { digits(n / 10, hex).push(digit_char(n % 10)) }
    }
}

/// The base that `digits` uses.
pub open spec fn base_of(hex: bool) -> nat {
    if hex { 16 } else { 10 }
}

/// Relies on `String::push`: the character is appended at the end.
#[verifier::external_body]
pub(crate) fn push_char(s: &mut String, c: char)
    ensures
        final(s)@ == old(s)@.push(c),
{
    s.push(c)
}

fn exec_digit_char(d: usize) -> (c: char)
    requires
        d < 16,
    ensures
        c == digit_char(d as nat),
{
    if d == 0 { '0' }
    else if d == 1 { '1' }
    else if d == 2 { '2' }
    else if d == 3 { '3' }
    else if d == 4 { '4' }
    else if d == 5 { '5' }
    else if d == 6 { '6' }
    else if d == 7 { '7' }
    else if d == 8 { '8' }
    else if d == 9 { '9' }
    else if d == 10 { 'a' }
    else if d == 11 { 'b' }
    else if d == 12 { 'c' }
    else if d == 13 { 'd' }
    else if d == 14 { 'e' }
    else { 'f' }
}

/// Writes `n` in hexadecimal (`hex`) or decimal.
pub fn radix_string(n: usize, hex: bool) -> (r: String)
    ensures
        r@ == digits(n as nat, hex),
{
    let base: usize = if hex { 16 } else { 10 };
    let mut rev: Vec<char> = Vec::new();
    let mut m: usize = n;
    while m >= base
        invariant
            base == base_of(hex),
            m <= n,
            digits(n as nat, hex) == digits(m as nat, hex) + rev@.reverse(),
        decreases m,
    {
        let c = exec_digit_char(m % base);
        proof {
            assert(digits(m as nat, hex) == digits((m / base) as nat, hex).push(c));
            assert(digits((m / base) as nat, hex).push(c) + rev@.reverse()
                =~= digits((m / base) as nat, hex) + rev@.push(c).reverse());
        }
        rev.push(c);
        m = m / base;
    }
    let first = exec_digit_char(m);
    rev.push(first);
    assert(digits(n as nat, hex) =~= rev@.reverse());
    let mut r = String::new();
    let mut i: usize = rev.len();
    while i > 0
        invariant
            i <= rev.len(),
            r@ == rev@.reverse().subrange(0, (rev.len() - i) as int),
        decreases i,
    {
        i = i - 1;
        proof {
            assert(rev@.reverse().subrange(0, (rev.len() - i) as int)
                =~= rev@.reverse().subrange(0, (rev.len() - i - 1) as int).push(rev@[i as int]));
        }
        push_char(&mut r, rev[i]);
    }
    assert(rev@.reverse().subrange(0, rev.len() as int) =~= rev@.reverse());
    r
}

/// The decimal digits of `n`.
pub fn decimal(n: usize) -> (r: String)
    ensures
        r@ == digits(n as nat, false),
{
    radix_string(n, false)
}

/// The characters of a string slice, one by one.
pub fn chars_of(s: &str) -> (r: Vec<char>)
    ensures
        r@ == s@,
{
    let mut r: Vec<char> = Vec::new();
    for c in it: s.chars()
        invariant
            r@ == it.seq().take(it.index() as int),
    {
        r.push(c);
    }
    r
}

/// `a` followed by `b`, as a new string.
pub fn concat(a: &str, b: &str) -> (r: String)
    ensures
        r@ == a@ + b@,
{
    let mut r = String::from_str(a);
    r.append(b);
    r
}

/// The parts joined with `sep` between each two neighbours.
pub open spec fn join(parts: Seq<Seq<char>>, sep: Seq<char>) -> Seq<char>
    decreases parts.len(),
{
    if parts.len() == 0 {
        Seq::empty()
    } else if parts.len() == 1 {
        parts[0]
    } else {
        join(parts.drop_last(), sep) + sep + parts.last()
    }
}

/// The texts of a vector of strings.
pub open spec fn texts(v: Seq<String>) -> Seq<Seq<char>> {
    v.map_values(|s: String| s@)
}

/// Joins the strings with `sep` between each two neighbours.
pub fn join_strings(parts: &Vec<String>, sep: &str) -> (r: String)
    ensures
        r@ == join(texts(parts@), sep@),
{
    let mut r = String::new();
    let mut i: usize = 0;
    while i < parts.len()
        invariant
            i <= parts.len(),
            r@ == join(texts(parts@).take(i as int), sep@),
        decreases parts.len() - i,
    {
        proof {
            let t = texts(parts@);
            assert(t.take(i as int + 1).drop_last() =~= t.take(i as int));
        }
        if i > 0 {
            r.append(sep);
        }
        r.append(parts[i].as_str());
        i = i + 1;
    }
    assert(texts(parts@).take(i as int) =~= texts(parts@));
    r
}

/// `s` with every occurrence of the non-empty `pat` replaced by `with`,
/// occurrences taken left to right without overlap.
pub open spec fn replace_all(s: Seq<char>, pat: Seq<char>, with: Seq<char>) -> Seq<char>
    decreases s.len(),
{
    if pat.len() == 0 || s.len() < pat.len() {
        s
    } else if s.subrange(0, pat.len() as int) == pat {
        with + replace_all(s.subrange(pat.len() as int, s.len() as int), pat, with)
    } else {
        seq![s[0]] + replace_all(s.drop_first(), pat, with)
    }
}

/// Relies on `str::replace`: every non-overlapping match of `pat`, found
/// from the left, is replaced by `with`.
#[verifier::external_body]
pub(crate) fn replace_str(s: &str, pat: &str, with: &str) -> (r: String)
    requires
        pat@.len() > 0,
    ensures
        r@ == replace_all(s@, pat@, with@),
{
    s.replace(pat, with)
}

} // verus!
