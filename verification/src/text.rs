//! Character-level helpers shared by the parsers and encoders of the crate:
//! turning strings into character vectors and back, searching for a
//! character or a pattern, and rendering numbers in decimal.

use vstd::prelude::*;

verus! {

/// Index of the first occurrence of `c` in `s`, if any.
pub open spec fn first_index_of(s: Seq<char>, c: char) -> Option<int>
    decreases s.len(),
{
    if s.len() == 0 {
        None
    } else if s[0] == c {
        Some(0)
    } else {
        match first_index_of(s.drop_first(), c) {
            Some(i) => Some(i + 1),
            None => None,
        }
    }
}

/// `pat` occurs in `s` starting at index `i`.
pub open spec fn occurs_at(s: Seq<char>, pat: Seq<char>, i: int) -> bool {
    0 <= i && i + pat.len() <= s.len() && s.subrange(i, i + pat.len()) == pat
}

/// `pat` occurs somewhere in `s` (the empty pattern occurs in every string).
pub open spec fn seq_contains(s: Seq<char>, pat: Seq<char>) -> bool {
    exists|i: int| occurs_at(s, pat, i)
}

/// What `first_index_of` returns: the smallest index holding `c`, or `None`
/// when no index holds it.
pub proof fn lemma_first_index_of(s: Seq<char>, c: char)
    ensures
        match first_index_of(s, c) {
            Some(i) => 0 <= i < s.len() && s[i] == c && forall|j: int| 0 <= j < i ==> s[j] != c,
            None => forall|j: int| 0 <= j < s.len() ==> s[j] != c,
        },
    decreases s.len(),
{
    if s.len() > 0 && s[0] != c {
        lemma_first_index_of(s.drop_first(), c);
        match first_index_of(s.drop_first(), c) {
            Some(i) => {
                assert forall|j: int| 0 <= j < i + 1 implies s[j] != c by {
                    if j > 0 {
                        assert(s[j] == s.drop_first()[j - 1]);
                    }
                }
            },
            None => {
                assert forall|j: int| 0 <= j < s.len() implies s[j] != c by {
                    if j > 0 {
                        assert(s[j] == s.drop_first()[j - 1]);
                    }
                }
            },
        }
    }
}

/// The converse of `lemma_first_index_of`: a scan that saw no `c` before
/// index `i` pins down `first_index_of`.
pub proof fn lemma_first_index_at(s: Seq<char>, c: char, i: int)
    requires
        0 <= i <= s.len(),
        forall|j: int| 0 <= j < i ==> s[j] != c,
    ensures
        i < s.len() && s[i] == c ==> first_index_of(s, c) == Some(i),
        i == s.len() ==> first_index_of(s, c) is None,
{
    lemma_first_index_of(s, c);
}

/// The characters of a string slice, in order.
pub fn chars_of(s: &str) -> (res: Vec<char>)
    ensures
        res@ == s@,
{
    let mut v: Vec<char> = Vec::new();
    for c in it: s.chars()
        invariant
            v@ == it.seq().take(it.index() as int),
    {
        v.push(c);
    }
    v
}

/// Equality of string slices: the same characters in the same order.
pub fn str_eq(a: &str, b: &str) -> (res: bool)
    ensures
        res == (a@ == b@),
{
    let x = chars_of(a);
    let y = chars_of(b);
    if x.len() != y.len() {
        return false;
    }
    let mut i: usize = 0;
    while i < x.len()
        invariant
            x@ == a@,
            y@ == b@,
            x.len() == y.len(),
            i <= x.len(),
            forall|j: int| 0 <= j < i ==> x@[j] == y@[j],
        decreases x.len() - i,
    {
        if x[i] != y[i] {
            return false;
        }
        i = i + 1;
    }
    assert(x@ =~= y@);
    true
}

/// `a` followed by `b`.
pub fn cat(a: &str, b: &str) -> (res: String)
    ensures
        res@ == a@ + b@,
{
    let mut s = String::from_str(a);
    s.append(b);
    s
}

/// `a`, `b` and `c` one after another.
pub fn cat3(a: &str, b: &str, c: &str) -> (res: String)
    ensures
        res@ == a@ + b@ + c@,
{
    let mut s = String::from_str(a);
    s.append(b);
    s.append(c);
    s
}

/// `a`, `b`, `c` and `d` one after another.
pub fn cat4(a: &str, b: &str, c: &str, d: &str) -> (res: String)
    ensures
        res@ == a@ + b@ + c@ + d@,
{
    let mut s = String::from_str(a);
    s.append(b);
    s.append(c);
    s.append(d);
    s
}

/// White space as `char::is_whitespace` defines it (Unicode `White_Space`).
pub open spec fn is_white(c: char) -> bool {
    ||| c == '\t' || c == '\n' || c == '\u{b}' || c == '\u{c}' || c == '\r' || c == ' '
    ||| c == '\u{85}' || c == '\u{a0}' || c == '\u{1680}'
    ||| ('\u{2000}' as int) <= (c as int) <= ('\u{200a}' as int)
    ||| c == '\u{2028}' || c == '\u{2029}' || c == '\u{202f}' || c == '\u{205f}'
    ||| c == '\u{3000}'
}

pub fn is_white_exec(c: char) -> (res: bool)
    ensures
        res == is_white(c),
{
    c == '\t' || c == '\n' || c == '\u{b}' || c == '\u{c}' || c == '\r' || c == ' '
        || c == '\u{85}' || c == '\u{a0}' || c == '\u{1680}'
        || ('\u{2000}' <= c && c <= '\u{200a}') || c == '\u{2028}' || c == '\u{2029}'
        || c == '\u{202f}' || c == '\u{205f}' || c == '\u{3000}'
}

/// `s` without the white space at its start and its end (std's `str::trim`).
pub open spec fn trimmed(s: Seq<char>) -> Seq<char> {
    let lo = leading_white(s, 0);
    let hi = trailing_end(s, s.len() as int, lo);
    s.subrange(lo, hi)
}

/// The first index at or after `i` that holds no white space (or the length).
pub open spec fn leading_white(s: Seq<char>, i: int) -> int
    decreases s.len() - i,
{
    if i < 0 || i >= s.len() || !is_white(s[i]) {
        i
    } else {
        leading_white(s, i + 1)
    }
}

/// Where the text ends once the white space before `hi` (down to `lo`) is cut.
pub open spec fn trailing_end(s: Seq<char>, hi: int, lo: int) -> int
    decreases hi - lo,
{
    if hi <= lo || hi > s.len() || !is_white(s[hi - 1]) {
        hi
    } else {
        trailing_end(s, hi - 1, lo)
    }
}

/// `str::trim`, written out over the characters.
pub fn trim(s: &str) -> (res: String)
    ensures
        res@ == trimmed(s@),
{
    let v = chars_of(s);
    let mut lo: usize = 0;
    while lo < v.len() && is_white_exec(v[lo])
        invariant
            lo <= v.len(),
            leading_white(v@, 0) == leading_white(v@, lo as int),
        decreases v.len() - lo,
    {
        lo = lo + 1;
    }
    let mut hi: usize = v.len();
    while hi > lo && is_white_exec(v[hi - 1])
        invariant
            lo <= hi <= v.len(),
            leading_white(v@, 0) == lo,
            trailing_end(v@, v@.len() as int, lo as int) == trailing_end(v@, hi as int, lo as int),
        decreases hi,
    {
        hi = hi - 1;
    }
    substring(&v, lo, hi)
}

/// The decimal digit for a value below 10.
pub open spec fn digit_char(d: int) -> char {
    (('0' as int) + d) as char
}

/// The decimal numeral of `n`, without leading zeros.
pub open spec fn decimal(n: nat) -> Seq<char>
    decreases n,
{
    if n < 10 {
        seq![digit_char(n as int)]
    } else {
        decimal(n / 10) + seq![digit_char((n % 10) as int)]
    }
}

fn push_decimal(n: u64, out: &mut Vec<char>)
    ensures
        final(out)@ == old(out)@ + decimal(n as nat),
    decreases n,
{
    if n >= 10 {
        push_decimal(n / 10, out);
    }
    let d = (n % 10) as u32;
    let c = char_from_digit(d);
    out.push(c);
    proof {
        if n < 10 {
            assert(old(out)@ + decimal(n as nat) =~= old(out)@.push(c));
        }
    }
}

fn char_from_digit(d: u32) -> (c: char)
    requires
        d < 10,
    ensures
        c == digit_char(d as int),
{
    if d == 0 { '0' } else if d == 1 { '1' } else if d == 2 { '2' } else if d == 3 { '3' }
    else if d == 4 { '4' } else if d == 5 { '5' } else if d == 6 { '6' } else if d == 7 { '7' }
    else if d == 8 { '8' } else { '9' }
}

/// The decimal numeral of `n`, as `n.to_string()` writes it.
pub fn decimal_string(n: u64) -> (res: String)
    ensures
        res@ == decimal(n as nat),
{
    let mut v: Vec<char> = Vec::new();
    push_decimal(n, &mut v);
    assert(v@ =~= decimal(n as nat));
    string_from_chars(&v)
}

/// Collects characters into a `String` (std's `FromIterator<char>`).
#[verifier::external_body]
pub(crate) fn string_from_chars(v: &Vec<char>) -> (res: String)
    ensures
        res@ == v@,
{
    v.iter().collect()
}

/// The characters of `s` from index `lo` up to, not including, `hi`.
pub fn substring(s: &Vec<char>, lo: usize, hi: usize) -> (res: String)
    requires
        lo <= hi <= s.len(),
    ensures
        res@ == s@.subrange(lo as int, hi as int),
{
    let mut v: Vec<char> = Vec::new();
    let mut i = lo;
    while i < hi
        invariant
            lo <= i <= hi <= s.len(),
            v@ == s@.subrange(lo as int, i as int),
        decreases hi - i,
    {
        v.push(s[i]);
        i = i + 1;
        assert(v@ == s@.subrange(lo as int, i as int));
    }
    string_from_chars(&v)
}

/// Whether `pat` occurs at index `i` of `s`, checked character by character.
pub fn matches_at(s: &Vec<char>, i: usize, hi: usize, pat: &Vec<char>) -> (res: bool)
    requires
        i <= hi <= s.len(),
    ensures
        res == occurs_at(s@.subrange(0, hi as int), pat@, i as int),
{
    let ghost t = s@.subrange(0, hi as int);
    if pat.len() > hi - i {
        return false;
    }
    let mut k: usize = 0;
    while k < pat.len()
        invariant
            i + pat.len() <= hi <= s.len(),
            t == s@.subrange(0, hi as int),
            k <= pat.len(),
            forall|m: int| 0 <= m < k ==> s@[i + m] == pat@[m],
        decreases pat.len() - k,
    {
        if s[i + k] != pat[k] {
            assert(t.subrange(i as int, i + pat.len())[k as int] != pat@[k as int]);
            return false;
        }
        k = k + 1;
    }
    assert(t.subrange(i as int, i + pat.len()) =~= pat@);
    true
}

/// Whether `pat` occurs in the characters of `s` between `lo` and `hi`.
pub fn contains_in(s: &Vec<char>, lo: usize, hi: usize, pat: &Vec<char>) -> (res: bool)
    requires
        lo <= hi <= s.len(),
    ensures
        res == seq_contains(s@.subrange(lo as int, hi as int), pat@),
{
    let ghost t = s@.subrange(lo as int, hi as int);
    if pat.len() == 0 {
        assert(occurs_at(t, pat@, 0)) by {
            assert(t.subrange(0, 0) =~= pat@);
        }
        return true;
    }
    if pat.len() > hi - lo {
        assert forall|j: int| !occurs_at(t, pat@, j) by {}
        return false;
    }
    let last = hi - pat.len();
    let mut i = lo;
    while i <= last
        invariant
            lo <= i <= last + 1,
            last < hi <= s.len(),
            last + pat.len() == hi,
            t == s@.subrange(lo as int, hi as int),
            forall|j: int| 0 <= j < i - lo ==> !occurs_at(t, pat@, j),
        decreases last + 1 - i,
    {
        if matches_at(s, i, hi, pat) {
            assert(s@.subrange(0, hi as int).subrange(i as int, i + pat@.len())
                =~= t.subrange(i - lo, i - lo + pat@.len()));
            assert(occurs_at(t, pat@, i - lo));
            return true;
        }
        assert(!occurs_at(t, pat@, i - lo)) by {
            if occurs_at(t, pat@, i - lo) {
                assert(s@.subrange(0, hi as int).subrange(i as int, i + pat@.len())
                    =~= t.subrange(i - lo, i - lo + pat@.len()));
            }
        }
        i = i + 1;
    }
    assert forall|j: int| !occurs_at(t, pat@, j) by {}
    false
}

} // verus!
