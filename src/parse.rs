//! Reading numbers out of the text of capture side-files.
use vstd::prelude::*;
use crate::model::BuildError;
use crate::text::{chars_of, push_char, texts};

verus! {

/// The value of a decimal digit.
pub open spec fn digit_value(c: char) -> Option<nat> {
    if c == '0' { Some(0) }
    else if c == '1' { Some(1) }
    else if c == '2' { Some(2) }
    else if c == '3' { Some(3) }
    else if c == '4' { Some(4) }
    else if c == '5' { Some(5) }
    else if c == '6' { Some(6) }
    else if c == '7' { Some(7) }
    else if c == '8' { Some(8) }
    else if c == '9' { Some(9) }
    else { None }
}

/// The value of a string of decimal digits.
pub open spec fn digits_value(d: Seq<char>) -> nat
    decreases d.len(),
{
    if d.len() == 0 {
        0
    } else {
        digits_value(d.drop_last()) * 10 + match digit_value(d.last()) {
            Some(v) => v,
            None => 0,
        }
    }
}

pub open spec fn all_digits(d: Seq<char>) -> bool {
    forall|i: int| 0 <= i < d.len() ==> (#[trigger] digit_value(d[i])) is Some
}

/// The digits of an unsigned number's text: without its leading `+`.
pub open spec fn unsigned_digits(s: Seq<char>) -> Seq<char> {
    if s.len() > 0 && s[0] == '+' { s.drop_first() } else { s }
}

/// The unsigned number that `s` writes: an optional `+`, then at least one
/// decimal digit, with a value that fits in `usize`.
pub open spec fn parse_unsigned(s: Seq<char>) -> Option<nat> {
    let d = unsigned_digits(s);
    if d.len() > 0 && all_digits(d) && digits_value(d) <= usize::MAX {
        Some(digits_value(d))
    } else {
        None
    }
}

fn digit_of(c: char) -> (r: Option<usize>)
    ensures
        match digit_value(c) {
            Some(v) => r == Some(v as usize),
            None => r is None,
        },
{
    if c == '0' { Some(0) }
    else if c == '1' { Some(1) }
    else if c == '2' { Some(2) }
    else if c == '3' { Some(3) }
    else if c == '4' { Some(4) }
    else if c == '5' { Some(5) }
    else if c == '6' { Some(6) }
    else if c == '7' { Some(7) }
    else if c == '8' { Some(8) }
    else if c == '9' { Some(9) }
    else { None }
}

proof fn lemma_digits_value_grows(d: Seq<char>, k: int)
    requires
        0 <= k <= d.len(),
    ensures
        digits_value(d.take(k)) <= digits_value(d),
    decreases d.len() - k,
{
    if k < d.len() {
        lemma_digits_value_grows(d, k + 1);
        assert(d.take(k + 1).drop_last() =~= d.take(k));
    } else {
        assert(d.take(k) =~= d);
    }
}

/// Reads an unsigned number in decimal, as `usize::from_str` does.
pub fn parse_usize(s: &str) -> (r: Option<usize>)
    ensures
        match parse_unsigned(s@) {
            Some(v) => r == Some(v as usize),
            None => r is None,
        },
{
    let cs = chars_of(s);
    let start: usize = if cs.len() > 0 && cs[0] == '+' { 1 } else { 0 };
    let ghost d = unsigned_digits(s@);
    assert(d =~= cs@.subrange(start as int, cs.len() as int));
    if start >= cs.len() {
        return None;
    }
    let mut v: usize = 0;
    let mut i: usize = start;
    while i < cs.len()
        invariant
            start <= i <= cs.len(),
            d == cs@.subrange(start as int, cs.len() as int),
            d == unsigned_digits(s@),
            all_digits(d.take(i - start)),
            v == digits_value(d.take(i - start)),
        decreases cs.len() - i,
    {
        let ghost k = i - start;
        assert(d.take(k + 1).drop_last() =~= d.take(k));
        assert(d.take(k + 1).last() == cs@[i as int]);
        match digit_of(cs[i]) {
            None => {
                assert(d[k as int] == cs@[i as int]);
                assert(digit_value(d[k as int]) is None);
                assert(!all_digits(d));
                return None;
            },
            Some(x) => {
                if v > (usize::MAX - x) / 10 {
                    proof {
                        assert(v * 10 + x > usize::MAX) by (nonlinear_arith)
                            requires v > (usize::MAX - x) / 10, x <= 9;
                        lemma_digits_value_grows(d, k + 1);
                        assert(digits_value(d.take(k + 1)) == v * 10 + x);
                    }
                    return None;
                }
                assert(v * 10 + x <= usize::MAX) by (nonlinear_arith)
                    requires v <= (usize::MAX - x) / 10, x <= 9;
                v = v * 10 + x;
                assert(all_digits(d.take(k + 1)));
            },
        }
        i = i + 1;
    }
    assert(d.take(i - start) =~= d);
    Some(v)
}

/// Whether `c` has the Unicode `White_Space` property (`char::is_whitespace`).
pub open spec fn is_white(c: char) -> bool {
    let u = c as u32;
    (0x9 <= u && u <= 0xd) || u == 0x20 || u == 0x85 || u == 0xa0 || u == 0x1680 || (0x2000 <= u
        && u <= 0x200a) || u == 0x2028 || u == 0x2029 || u == 0x202f || u == 0x205f || u == 0x3000
}

/// `s` without its leading white space.
pub open spec fn trim_start(s: Seq<char>) -> Seq<char>
    decreases s.len(),
{
    if s.len() > 0 && is_white(s[0]) { trim_start(s.drop_first()) } else { s }
}

/// `s` without its trailing white space.
pub open spec fn trim_end(s: Seq<char>) -> Seq<char>
    decreases s.len(),
{
    if s.len() > 0 && is_white(s.last()) { trim_end(s.drop_last()) } else { s }
}

/// Relies on `str::trim`: leading and trailing white space (as
/// `char::is_whitespace` defines it) is removed.
#[verifier::external_body]
fn trim(s: &str) -> (r: &str)
    ensures
        r@ == trim_end(trim_start(s@)),
{
    s.trim()
}

/// The key that introduces the stride in a side-file.
pub open spec fn stride_key() -> Seq<char> {
    seq!['s', 't', 'r', 'i', 'd', 'e', ':']
}

pub open spec fn match_at(s: Seq<char>, pat: Seq<char>, k: int) -> bool {
    0 <= k && k + pat.len() <= s.len() && s.subrange(k, k + pat.len()) == pat
}

pub open spec fn has_match(s: Seq<char>, pat: Seq<char>) -> bool {
    exists|k: int| match_at(s, pat, k)
}

/// Where `pat` first occurs in `s`.
pub open spec fn first_match(s: Seq<char>, pat: Seq<char>) -> int {
    choose|k: int| match_at(s, pat, k) && forall|j: int| 0 <= j < k ==> !match_at(s, pat, j)
}

/// The text of the stride: what follows the first `stride:` of the last line
/// that holds one, `0` when no line does.
pub open spec fn stride_field(lines: Seq<Seq<char>>) -> Seq<char>
    decreases lines.len(),
{
    if lines.len() == 0 {
        seq!['0']
    } else if has_match(lines.last(), stride_key()) {
        let l = lines.last();
        l.subrange(first_match(l, stride_key()) + 7, l.len() as int)
    } else {
        stride_field(lines.drop_last())
    }
}

fn find_stride_key(cs: &Vec<char>) -> (r: Option<usize>)
    ensures
        match r {
            Some(k) => has_match(cs@, stride_key()) && k == first_match(cs@, stride_key()) && k + 7 <= cs.len(),
            None => !has_match(cs@, stride_key()),
        },
{
    let key: [char; 7] = ['s', 't', 'r', 'i', 'd', 'e', ':'];
    assert(key@ =~= stride_key());
    let mut k: usize = 0;
    while cs.len() >= 7 && k <= cs.len() - 7
        invariant
            key@ == stride_key(),
            forall|j: int| 0 <= j < k ==> !match_at(cs@, stride_key(), j),
        decreases cs.len() - k,
    {
        let mut same = true;
        let mut m: usize = 0;
        while m < 7
            invariant
                k + 7 <= cs.len(),
                m <= 7,
                key@ == stride_key(),
                same == (forall|j: int| 0 <= j < m ==> cs@[k + j] == stride_key()[j]),
            decreases 7 - m,
        {
            same = same && cs[k + m] == key[m];
            m = m + 1;
        }
        if same {
            proof {
                assert(cs@.subrange(k as int, k + 7) =~= stride_key());
                assert(match_at(cs@, stride_key(), k as int));
                let f = first_match(cs@, stride_key());
                assert(match_at(cs@, stride_key(), f) && forall|j: int| 0 <= j < f ==> !match_at(cs@, stride_key(), j));
                if f < k {
                    assert(!match_at(cs@, stride_key(), f));
                }
                if f > k {
                    assert(!match_at(cs@, stride_key(), k as int));
                }
            }
            return Some(k);
        }
        proof {
            if match_at(cs@, stride_key(), k as int) {
                let j = choose|j: int| 0 <= j < 7 && cs@[k + j] != stride_key()[j];
                assert(cs@.subrange(k as int, k + 7)[j] == cs@[k + j]);
            }
        }
        k = k + 1;
    }
    assert forall|j: int| !match_at(cs@, stride_key(), j) by {
        if j >= k && match_at(cs@, stride_key(), j) {
            assert(j + 7 <= cs.len());
        }
    }
    None
}

fn string_from(cs: &Vec<char>, from: usize) -> (r: String)
    requires
        from <= cs.len(),
    ensures
        r@ == cs@.subrange(from as int, cs.len() as int),
{
    let mut r = String::new();
    let mut i: usize = from;
    while i < cs.len()
        invariant
            from <= i <= cs.len(),
            r@ == cs@.subrange(from as int, i as int),
        decreases cs.len() - i,
    {
        push_char(&mut r, cs[i]);
        i = i + 1;
        assert(r@ =~= cs@.subrange(from as int, i as int));
    }
    r
}

/// Reads the stride of a component from the lines of its side-file: the
/// number after the first `stride:` of the last line that holds one
/// (white space around it left out), `0` when no line does.
pub fn stride_from_lines(lines: &Vec<String>) -> (r: Result<usize, BuildError>)
    ensures
        match parse_unsigned(trim_end(trim_start(stride_field(texts(lines@))))) {
            Some(v) => r == Ok::<usize, BuildError>(v as usize),
            None => r == Err::<usize, BuildError>(BuildError::BadStride),
        },
{
    let mut i: usize = lines.len();
    let mut field = String::new();
    push_char(&mut field, '0');
    assert(texts(lines@).take(i as int) =~= texts(lines@));
    while i > 0
        invariant
            i <= lines.len(),
            stride_field(texts(lines@)) == if i == 0 { field@ } else { stride_field(texts(lines@).take(i as int)) },
            field@ == seq!['0'],
        decreases i,
    {
        let cs = chars_of(lines[i - 1].as_str());
        let ghost t = texts(lines@).take(i as int);
        assert(t.last() == cs@);
        assert(t.drop_last() =~= texts(lines@).take(i - 1));
        match find_stride_key(&cs) {
            Some(k) => {
                let rest = string_from(&cs, k + 7);
                let trimmed = trim(rest.as_str());
                return match parse_usize(trimmed) {
                    Some(v) => Ok(v),
                    None => Err(BuildError::BadStride),
                };
            },
            None => {},
        }
        i = i - 1;
    }
    assert(texts(lines@).take(0) =~= Seq::<Seq<char>>::empty());
    let trimmed = trim(field.as_str());
    match parse_usize(trimmed) {
        Some(v) => Ok(v),
        None => Err(BuildError::BadStride),
    }
}

} // verus!
