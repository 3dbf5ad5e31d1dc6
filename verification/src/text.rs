//! Character classes and scanning over sequences of characters.

use vstd::prelude::*;
use vstd::string::*;

verus! {

/// The classes of characters that the parsers scan over.
#[derive(Clone, Copy, Debug, PartialEq, Eq, Structural)]
pub enum CharClass {
    /// The decimal digits `0` to `9`.
    Digit,
    /// White space, as Unicode defines it.
    Space,
    /// Everything but white space.
    NonSpace,
    /// Everything but the hyphen `-`.
    NonHyphen,
}

pub open spec fn is_digit(c: char) -> bool {
    0x30 <= c as u32 <= 0x39
}

/// The code points with the Unicode property White_Space.
pub open spec fn is_space(c: char) -> bool {
    let n = c as u32;
    ||| 0x09 <= n <= 0x0d
    ||| n == 0x20
    ||| n == 0x85
    ||| n == 0xa0
    ||| n == 0x1680
    ||| 0x2000 <= n <= 0x200a
    ||| n == 0x2028
    ||| n == 0x2029
    ||| n == 0x202f
    ||| n == 0x205f
    ||| n == 0x3000
}

pub open spec fn is_hyphen(c: char) -> bool {
    c as u32 == 0x2d
}

pub open spec fn in_class(class: CharClass, c: char) -> bool {
    match class {
        CharClass::Digit => is_digit(c),
        CharClass::Space => is_space(c),
        CharClass::NonSpace => !is_space(c),
        CharClass::NonHyphen => !is_hyphen(c),
    }
}

/// The first position at or after `i` whose character is not in `class`,
/// or the length of `s` where every character from `i` on is in it.
pub open spec fn skip(s: Seq<char>, class: CharClass, i: int) -> int
    decreases s.len() - i,
{
    if 0 <= i < s.len() && in_class(class, s[i]) {
        skip(s, class, i + 1)
    } else {
        i
    }
}

/// The end of `s` without its trailing white space, not going below `lo`.
pub open spec fn skip_back_space(s: Seq<char>, lo: int, j: int) -> int
    decreases j,
{
    if lo < j <= s.len() && 0 <= lo && is_space(s[j - 1]) {
        skip_back_space(s, lo, j - 1)
    } else {
        j
    }
}

/// `s` without the white space at its two ends.
pub open spec fn trimmed(s: Seq<char>) -> Seq<char> {
    let a = skip(s, CharClass::Space, 0);
    let b = skip_back_space(s, a, s.len() as int);
    s.subrange(a, b)
}

/// The number that the digits of `s` write in base ten.
pub open spec fn digits_value(s: Seq<char>) -> int
    decreases s.len(),
{
    if s.len() == 0 {
        0
    } else {
        digits_value(s.drop_last()) * 10 + (s.last() as u32 - 0x30)
    }
}

pub open spec fn all_digits(s: Seq<char>) -> bool {
    forall|i: int| 0 <= i < s.len() ==> is_digit(#[trigger] s[i])
}

/// What `s` reads as a decimal number no larger than `max`: `s` is not
/// empty, holds digits only, and its value is within the bound.
pub open spec fn decimal(s: Seq<char>, max: int) -> Option<int> {
    if s.len() > 0 && all_digits(s) && digits_value(s) <= max {
        Some(digits_value(s))
    } else {
        None
    }
}

/// `skip` stays within the sequence, passes only characters of the class,
/// and stops at one that is outside it.
pub proof fn lemma_skip(s: Seq<char>, class: CharClass, i: int)
    requires
        0 <= i <= s.len(),
    ensures
        i <= skip(s, class, i) <= s.len(),
        forall|k: int| i <= k < skip(s, class, i) ==> in_class(class, #[trigger] s[k]),
        skip(s, class, i) < s.len() ==> !in_class(class, s[skip(s, class, i)]),
    decreases s.len() - i,
{
    if i < s.len() && in_class(class, s[i]) {
        lemma_skip(s, class, i + 1);
    }
}

/// A position `j` at which the class ends, with only characters of the
/// class between `i` and `j`, is where `skip` from `i` stops.
pub proof fn lemma_skip_to(s: Seq<char>, class: CharClass, i: int, j: int)
    requires
        0 <= i <= j <= s.len(),
        forall|k: int| i <= k < j ==> in_class(class, #[trigger] s[k]),
        j < s.len() ==> !in_class(class, s[j]),
    ensures
        skip(s, class, i) == j,
    decreases j - i,
{
    if i < j {
        lemma_skip_to(s, class, i + 1, j);
    }
}

/// The value of a prefix of a digit string is not negative and does not
/// exceed the value of the whole.
pub proof fn lemma_prefix_value(s: Seq<char>, k: int)
    requires
        all_digits(s),
        0 <= k <= s.len(),
    ensures
        0 <= digits_value(s.subrange(0, k)) <= digits_value(s),
    decreases s.len(),
{
    if k == s.len() {
        assert(s.subrange(0, k) =~= s);
        if s.len() > 0 {
            lemma_prefix_value(s.drop_last(), k - 1);
            assert(s.drop_last().subrange(0, k - 1) =~= s.drop_last());
            assert(is_digit(s[s.len() - 1]));
        }
    } else {
        lemma_prefix_value(s.drop_last(), k);
        assert(s.drop_last().subrange(0, k) =~= s.subrange(0, k));
        assert(is_digit(s[s.len() - 1]));
    }
}

pub fn char_in_class(class: CharClass, c: char) -> (r: bool)
    ensures
        r == in_class(class, c),
{
    let n: u32 = c as u32;
    let space: bool = (0x09 <= n && n <= 0x0d) || n == 0x20 || n == 0x85 || n == 0xa0 || n
        == 0x1680 || (0x2000 <= n && n <= 0x200a) || n == 0x2028 || n == 0x2029 || n == 0x202f
        || n == 0x205f || n == 0x3000;
    match class {
        CharClass::Digit => 0x30 <= n && n <= 0x39,
        CharClass::Space => space,
        CharClass::NonSpace => !space,
        CharClass::NonHyphen => n != 0x2d,
    }
}

/// The characters of a string, one by one.
pub fn to_chars(s: &str) -> (v: Vec<char>)
    ensures
        v@ == s@,
{
    let n: usize = s.unicode_len();
    let mut v: Vec<char> = Vec::new();
    let mut i: usize = 0;
    while i < n
        invariant
            i <= n,
            n == s@.len(),
            v@ == s@.subrange(0, i as int),
        decreases n - i,
    {
        v.push(s.get_char(i));
        i += 1;
        proof {
            assert(v@ =~= s@.subrange(0, i as int));
        }
    }
    proof {
        assert(v@ =~= s@);
    }
    v
}

/// Whether two strings hold the same characters.
pub fn same_text(a: &str, b: &str) -> (r: bool)
    ensures
        r == (a@ == b@),
{
    let x = to_chars(a);
    let y = to_chars(b);
    if x.len() != y.len() {
        return false;
    }
    let mut i: usize = 0;
    while i < x.len()
        invariant
            i <= x.len(),
            x.len() == y.len(),
            x@ == a@,
            y@ == b@,
            forall|k: int| 0 <= k < i ==> x@[k] == y@[k],
        decreases x.len() - i,
    {
        if x[i] != y[i] {
            proof {
                assert(a@[i as int] != b@[i as int]);
            }
            return false;
        }
        i += 1;
    }
    proof {
        assert(x@ =~= y@);
    }
    true
}

/// Scans forward from `from` over the characters of `class`.
pub fn scan(v: &Vec<char>, class: CharClass, from: usize) -> (r: usize)
    requires
        from <= v.len(),
    ensures
        r == skip(v@, class, from as int),
        from <= r <= v.len(),
{
    let mut i: usize = from;
    while i < v.len() && char_in_class(class, v[i])
        invariant
            from <= i <= v.len(),
            skip(v@, class, from as int) == skip(v@, class, i as int),
        decreases v.len() - i,
    {
        i += 1;
    }
    i
}

/// Scans backward from `from` over white space, down to `lo` at most.
pub fn scan_back_space(v: &Vec<char>, lo: usize, from: usize) -> (r: usize)
    requires
        lo <= from <= v.len(),
    ensures
        r == skip_back_space(v@, lo as int, from as int),
        lo <= r <= from,
{
    let mut j: usize = from;
    while j > lo && char_in_class(CharClass::Space, v[j - 1])
        invariant
            lo <= j <= from,
            from <= v.len(),
            skip_back_space(v@, lo as int, from as int) == skip_back_space(
                v@,
                lo as int,
                j as int,
            ),
        decreases j,
    {
        j -= 1;
    }
    j
}

/// A string without the white space at its two ends.
pub fn trim_text(s: &str) -> (r: &str)
    ensures
        r@ == trimmed(s@),
{
    let v = to_chars(s);
    let a: usize = scan(&v, CharClass::Space, 0);
    let b: usize = scan_back_space(&v, a, v.len());
    s.substring_char(a, b)
}

/// Reads the characters from `from` up to `to` as a decimal number that is
/// no larger than `max`.
pub fn parse_decimal(v: &Vec<char>, from: usize, to: usize, max: u32) -> (r: Option<u32>)
    requires
        from <= to <= v.len(),
    ensures
        match decimal(v@.subrange(from as int, to as int), max as int) {
            Some(n) => r == Some(n as u32) && 0 <= n <= max,
            None => r is None,
        },
{
    let ghost s = v@.subrange(from as int, to as int);
    if from == to {
        return None;
    }
    let mut acc: u64 = 0;
    let mut i: usize = from;
    while i < to
        invariant
            from <= i <= to <= v.len(),
            s == v@.subrange(from as int, to as int),
            all_digits(s.subrange(0, i - from)),
            acc == digits_value(s.subrange(0, i - from)),
            acc <= max,
        decreases to - i,
    {
        let c: char = v[i];
        if !char_in_class(CharClass::Digit, c) {
            proof {
                assert(s[i - from] == c);
            }
            return None;
        }
        let d: u64 = (c as u32 - 0x30) as u64;
        let next: u64 = acc * 10 + d;
        proof {
            let p = s.subrange(0, i - from + 1);
            assert(p.drop_last() =~= s.subrange(0, i - from));
            assert(p.last() == c);
            assert(next == digits_value(p));
            assert(all_digits(p)) by {
                assert forall|k: int| 0 <= k < p.len() implies is_digit(#[trigger] p[k]) by {
                    if k < i - from {
                        assert(s.subrange(0, i - from)[k] == p[k]);
                    }
                }
            }
            if next > max && all_digits(s) {
                lemma_prefix_value(s, i - from + 1);
            }
        }
        if next > max as u64 {
            return None;
        }
        acc = next;
        i += 1;
    }
    proof {
        assert(s.subrange(0, to - from) =~= s);
    }
    Some(acc as u32)
}

} // verus!
