//! Small string helpers shared by the name-mangling and code-writing modules.
use vstd::prelude::*;

verus! {

/// Appends one character to a string (calls `String::push`).
#[verifier::external_body]
pub(crate) fn push_char(s: &mut String, c: char)
    ensures
        final(s)@ == old(s)@.push(c),
{
    s.push(c);
}

/// Appends a string slice to a string.
pub(crate) fn push_str(s: &mut String, t: &str)
    ensures
        final(s)@ == old(s)@ + t@,
{
    s.append(t);
}

/// A fresh owned copy of a string slice.
pub(crate) fn to_owned_string(t: &str) -> (r: String)
    ensures
        r@ == t@,
{
    t.to_owned()
}

/// The character at position `i` (counted in characters).
pub(crate) fn char_at(s: &str, i: usize) -> (c: char)
    requires
        i < s@.len(),
    ensures
        c == s@[i as int],
{
    s.get_char(i)
}

/// The number of characters in `s`.
pub(crate) fn char_len(s: &str) -> (n: usize)
    ensures
        n == s@.len(),
{
    s.unicode_len()
}

/// Whether two string slices hold the same characters.
pub fn str_eq(a: &str, b: &str) -> (r: bool)
    ensures
        r == (a@ == b@),
{
    let n = char_len(a);
    if n != char_len(b) {
        return false;
    }
    let mut i: usize = 0;
    while i < n
        invariant
            n == a@.len(),
            n == b@.len(),
            i <= n,
            forall|j: int| 0 <= j < i ==> a@[j] == b@[j],
        decreases n - i,
    {
        if char_at(a, i) != char_at(b, i) {
            return false;
        }
        i = i + 1;
    }
    assert(a@ =~= b@);
    true
}

/// Whether `s` contains `pat` as a contiguous run of characters.
pub open spec fn seq_contains_at(s: Seq<char>, pat: Seq<char>, at: int) -> bool {
    0 <= at && at + pat.len() <= s.len() && s.subrange(at, at + pat.len()) == pat
}

/// Whether `pat` occurs anywhere in `s`.
pub open spec fn seq_contains_seq(s: Seq<char>, pat: Seq<char>) -> bool {
    exists|at: int| seq_contains_at(s, pat, at)
}

/// Whether `s` holds `pat` (the `str::contains` test).
pub fn str_contains(s: &str, pat: &str) -> (r: bool)
    ensures
        r == seq_contains_seq(s@, pat@),
{
    let n = char_len(s);
    let m = char_len(pat);
    if m > n {
        proof {
            assert forall|at: int| !seq_contains_at(s@, pat@, at) by {}
        }
        return false;
    }
    let mut at: usize = 0;
    while at <= n - m
        invariant
            n == s@.len(),
            m == pat@.len(),
            m <= n,
            at <= n - m + 1,
            forall|k: int| 0 <= k < at ==> !seq_contains_at(s@, pat@, k),
        decreases n - m + 1 - at,
    {
        let mut j: usize = 0;
        let mut same = true;
        while j < m
            invariant
                n == s@.len(),
                m == pat@.len(),
                at + m <= n,
                j <= m,
                same == (forall|q: int| 0 <= q < j ==> s@[at + q] == pat@[q]),
            decreases m - j,
        {
            if char_at(s, at + j) != char_at(pat, j) {
                same = false;
            }
            j = j + 1;
        }
        if same {
            assert(s@.subrange(at as int, at + m) =~= pat@);
            assert(seq_contains_at(s@, pat@, at as int));
            return true;
        }
        proof {
            if seq_contains_at(s@, pat@, at as int) {
                assert forall|q: int| 0 <= q < m implies s@[at + q] == pat@[q] by {
                    assert(s@.subrange(at as int, at + m)[q] == s@[at + q]);
                }
            }
        }
        at = at + 1;
    }
    proof {
        assert forall|k: int| !seq_contains_at(s@, pat@, k) by {
            if 0 <= k && k + m <= n {
                assert(k < at);
            }
        }
    }
    false
}

/// Whether the character `c` occurs in `s`.
pub fn str_contains_char(s: &str, c: char) -> (r: bool)
    ensures
        r == s@.contains(c),
{
    let n = char_len(s);
    let mut i: usize = 0;
    while i < n
        invariant
            n == s@.len(),
            i <= n,
            forall|k: int| 0 <= k < i ==> s@[k] != c,
        decreases n - i,
    {
        if char_at(s, i) == c {
            assert(s@[i as int] == c);
            return true;
        }
        i = i + 1;
    }
    false
}

/// `s` with every occurrence of the character `c` replaced by `r`.
pub open spec fn replace_char(s: Seq<char>, c: char, r: Seq<char>) -> Seq<char>
    decreases s.len(),
{
    if s.len() == 0 {
        Seq::empty()
    } else {
        let last = s.last();
        replace_char(s.drop_last(), c, r) + if last == c { r } else { seq![last] }
    }
}

/// `s` with every occurrence of the character `c` replaced by `r`
/// (`str::replace` with a one-character pattern).
pub fn replace_char_str(s: &str, c: char, r: &str) -> (out: String)
    ensures
        out@ == replace_char(s@, c, r@),
{
    let n = char_len(s);
    let mut out = String::new();
    let mut i: usize = 0;
    while i < n
        invariant
            n == s@.len(),
            i <= n,
            out@ == replace_char(s@.take(i as int), c, r@),
        decreases n - i,
    {
        let d = char_at(s, i);
        assert(s@.take(i + 1).drop_last() =~= s@.take(i as int));
        if d == c {
            push_str(&mut out, r);
        } else {
            push_char(&mut out, d);
        }
        i = i + 1;
    }
    assert(s@.take(n as int) =~= s@);
    out
}

/// The decimal digit character for `d` (below 10).
pub open spec fn spec_digit(d: nat) -> char {
    if d == 0 { '0' } else if d == 1 { '1' } else if d == 2 { '2' } else if d == 3 { '3' } else if d == 4 { '4' }
    else if d == 5 { '5' } else if d == 6 { '6' } else if d == 7 { '7' } else if d == 8 { '8' } else { '9' }
}

/// The decimal spelling of `n`, without leading zeros.
pub open spec fn spec_decimal(n: nat) -> Seq<char>
    decreases n,
{
    if n < 10 {
        seq![spec_digit(n)]
    } else {
        spec_decimal(n / 10).push(spec_digit(n % 10))
    }
}

/// A decimal spelling has at least one digit, and more than one from 10 on.
proof fn lemma_decimal_len(n: nat)
    ensures
        spec_decimal(n).len() >= 1,
        n >= 10 ==> spec_decimal(n).len() >= 2,
    decreases n,
{
    if n >= 10 {
        lemma_decimal_len(n / 10);
    }
}

proof fn lemma_digit_injective(x: nat, y: nat)
    requires
        x < 10,
        y < 10,
        spec_digit(x) == spec_digit(y),
    ensures
        x == y,
{
}

/// Different numbers have different decimal spellings.
pub proof fn lemma_decimal_injective(a: nat, b: nat)
    requires
        spec_decimal(a) == spec_decimal(b),
    ensures
        a == b,
    decreases a,
{
    lemma_decimal_len(a);
    lemma_decimal_len(b);
    if a >= 10 && b >= 10 {
        assert(spec_decimal(a).drop_last() == spec_decimal(a / 10));
        assert(spec_decimal(b).drop_last() == spec_decimal(b / 10));
        lemma_decimal_injective(a / 10, b / 10);
        assert(spec_digit(a % 10) == spec_decimal(a).last());
        assert(spec_digit(b % 10) == spec_decimal(b).last());
        lemma_digit_injective(a % 10, b % 10);
    } else if a < 10 && b < 10 {
        assert(spec_decimal(a) == seq![spec_digit(a)]);
        assert(spec_decimal(b) == seq![spec_digit(b)]);
        assert(seq![spec_digit(a)][0] == spec_digit(a));
        assert(seq![spec_digit(b)][0] == spec_digit(b));
        assert(spec_decimal(a)[0] == spec_decimal(b)[0]);
        lemma_digit_injective(a, b);
    }
}

fn digit(d: usize) -> (c: char)
    requires
        d < 10,
    ensures
        c == spec_digit(d as nat),
{
    match d {
        0 => '0',
        1 => '1',
        2 => '2',
        3 => '3',
        4 => '4',
        5 => '5',
        6 => '6',
        7 => '7',
        8 => '8',
        _ => '9',
    }
}

/// Appends the decimal spelling of `n`.
pub fn push_decimal(s: &mut String, n: usize)
    ensures
        final(s)@ == old(s)@ + spec_decimal(n as nat),
    decreases n,
{
    if n >= 10 {
        push_decimal(s, n / 10);
    }
    push_char(s, digit(n % 10));
    assert(spec_decimal(n as nat) =~= if n < 10 { seq![spec_digit(n as nat)] } else { spec_decimal((n / 10) as nat).push(spec_digit((n % 10) as nat)) });
}

/// The position of the first `::` in `s` at or after `k`.
pub open spec fn first_dc_from(s: Seq<char>, k: int) -> Option<int>
    decreases s.len() - k,
{
    if k < 0 || k + 1 >= s.len() {
        None
    } else if s[k] == ':' && s[k + 1] == ':' {
        Some(k)
    } else {
        first_dc_from(s, k + 1)
    }
}

/// The position of the first `::` in `s`.
pub fn find_double_colon(s: &str) -> (r: Option<usize>)
    ensures
        r matches Some(k) ==> first_dc_from(s@, 0) == Some(k as int) && k + 2 <= s@.len(),
        r is None ==> first_dc_from(s@, 0) is None,
{
    let n = char_len(s);
    let mut k: usize = 0;
    while k < n && k + 1 < n
        invariant
            n == s@.len(),
            k <= n,
            first_dc_from(s@, 0) == first_dc_from(s@, k as int),
        decreases n - k,
    {
        if char_at(s, k) == ':' && char_at(s, k + 1) == ':' {
            return Some(k);
        }
        k = k + 1;
    }
    None
}

} // verus!
