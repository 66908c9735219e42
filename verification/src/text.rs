//! Character sequences: the operations on text that the rest of the library
//! is built from. Each executable function works on a `Vec<char>` and is
//! specified over `Seq<char>`.

use vstd::prelude::*;

verus! {

/// `pat` stands in `s` at position `i`.
pub open spec fn is_prefix_at(s: Seq<char>, pat: Seq<char>, i: int) -> bool {
    &&& 0 <= i
    &&& i + pat.len() <= s.len()
    &&& s.subrange(i, i + pat.len()) == pat
}

/// `pat` stands somewhere in `s`.
pub open spec fn occurs_in(s: Seq<char>, pat: Seq<char>) -> bool {
    exists|i: int| is_prefix_at(s, pat, i)
}

/// The decimal digit of `d`, for `0 <= d < 10`.
pub open spec fn digit(d: int) -> char {
    if d == 0 {
        '0'
    } else if d == 1 {
        '1'
    } else if d == 2 {
        '2'
    } else if d == 3 {
        '3'
    } else if d == 4 {
        '4'
    } else if d == 5 {
        '5'
    } else if d == 6 {
        '6'
    } else if d == 7 {
        '7'
    } else if d == 8 {
        '8'
    } else {
        '9'
    }
}

/// The decimal digits of `n`, most significant first, without leading zeros.
pub open spec fn nat_digits(n: nat) -> Seq<char>
    decreases n,
{
    if n < 10 {
        seq![digit(n as int)]
    } else {
        nat_digits(n / 10).push(digit((n % 10) as int))
    }
}

/// `n` in decimal, with a leading `-` when it is negative.
pub open spec fn decimal(n: int) -> Seq<char> {
    if n < 0 {
        seq!['-'] + nat_digits((-n) as nat)
    } else {
        nat_digits(n as nat)
    }
}

/// `s` with every run of `c` shortened to a single `c`.
pub open spec fn squeeze(s: Seq<char>, c: char) -> Seq<char>
    decreases s.len(),
{
    if s.len() == 0 {
        s
    } else if s.last() == c && s.len() >= 2 && s[s.len() - 2] == c {
        squeeze(s.drop_last(), c)
    } else {
        squeeze(s.drop_last(), c).push(s.last())
    }
}

/// `s` without the characters equal to `a` or `b` at its start.
pub open spec fn strip_start(s: Seq<char>, a: char, b: char) -> Seq<char>
    decreases s.len(),
{
    if s.len() > 0 && (s[0] == a || s[0] == b) {
        strip_start(s.drop_first(), a, b)
    } else {
        s
    }
}

/// `s` without the characters equal to `a` or `b` at its end.
pub open spec fn strip_end(s: Seq<char>, a: char, b: char) -> Seq<char>
    decreases s.len(),
{
    if s.len() > 0 && (s.last() == a || s.last() == b) {
        strip_end(s.drop_last(), a, b)
    } else {
        s
    }
}

/// `s` without the characters equal to `a` or `b` at either end.
pub open spec fn strip(s: Seq<char>, a: char, b: char) -> Seq<char> {
    strip_end(strip_start(s, a, b), a, b)
}

/// The parts one after another, with `sep` between each two.
pub open spec fn joined(parts: Seq<Seq<char>>, sep: Seq<char>) -> Seq<char>
    decreases parts.len(),
{
    if parts.len() == 0 {
        Seq::empty()
    } else if parts.len() == 1 {
        parts[0]
    } else {
        joined(parts.drop_last(), sep) + sep + parts.last()
    }
}

/// The characters of `s`, in order.
pub fn chars_of(s: &str) -> (v: Vec<char>)
    ensures
        v@ == s@,
{
    let mut v: Vec<char> = Vec::new();
    for c in it: s.chars()
        invariant
            v@ == it.seq().take(it.index() as int),
            it.seq() == s@,
    {
        v.push(c);
    }
    v
}

/// The string made of the characters of `v`, in order. Wraps
/// `String::from_iter` of std, which collects the characters it is given
/// into a string without changing or reordering them.
#[verifier::external_body]
pub(crate) fn string_of(v: &Vec<char>) -> (s: String)
    ensures
        s@ == v@,
{
    String::from_iter(v.iter())
}

/// Appends the characters of `src` to `dst`.
pub fn push_all(dst: &mut Vec<char>, src: &Vec<char>)
    ensures
        final(dst)@ == old(dst)@ + src@,
{
    let mut k: usize = 0;
    while k < src.len()
        invariant
            k <= src.len(),
            dst@ == old(dst)@ + src@.take(k as int),
        decreases src.len() - k,
    {
        dst.push(src[k]);
        k += 1;
    }
    assert(src@.take(src.len() as int) == src@);
}

/// Appends the characters of the string `src` to `dst`.
pub fn push_str(dst: &mut Vec<char>, src: &str)
    ensures
        final(dst)@ == old(dst)@ + src@,
{
    let v = chars_of(src);
    push_all(dst, &v);
}

/// Whether `pat` stands in `s` at position `i`.
pub fn starts_at(s: &Vec<char>, i: usize, pat: &Vec<char>) -> (b: bool)
    ensures
        b == is_prefix_at(s@, pat@, i as int),
{
    if pat.len() > s.len() || i > s.len() - pat.len() {
        return false;
    }
    let mut k: usize = 0;
    while k < pat.len()
        invariant
            k <= pat.len(),
            i + pat.len() <= s.len(),
            forall|j: int| 0 <= j < k ==> s@[i + j] == pat@[j],
        decreases pat.len() - k,
    {
        if s[i + k] != pat[k] {
            assert(s@.subrange(i as int, i + pat.len())[k as int] == s@[i + k]);
            return false;
        }
        k += 1;
    }
    assert(s@.subrange(i as int, i + pat.len()) =~= pat@);
    true
}

/// Whether `a` and `b` hold the same characters.
pub fn same_chars(a: &Vec<char>, b: &Vec<char>) -> (r: bool)
    ensures
        r == (a@ == b@),
{
    if a.len() != b.len() {
        return false;
    }
    let r = starts_at(a, 0, b);
    assert(a@.subrange(0, a@.len() as int) == a@);
    r
}

/// Whether `pat` stands somewhere in `s`.
pub fn contains(s: &Vec<char>, pat: &Vec<char>) -> (b: bool)
    ensures
        b == occurs_in(s@, pat@),
{
    let mut i: usize = 0;
    while i < s.len()
        invariant
            i <= s.len(),
            forall|j: int| 0 <= j < i ==> !is_prefix_at(s@, pat@, j),
        decreases s.len() - i,
    {
        if starts_at(s, i, pat) {
            return true;
        }
        i += 1;
    }
    starts_at(s, s.len(), pat)
}

fn digit_of(d: u64) -> (c: char)
    requires
        d < 10,
    ensures
        c == digit(d as int),
{
    if d == 0 {
        '0'
    } else if d == 1 {
        '1'
    } else if d == 2 {
        '2'
    } else if d == 3 {
        '3'
    } else if d == 4 {
        '4'
    } else if d == 5 {
        '5'
    } else if d == 6 {
        '6'
    } else if d == 7 {
        '7'
    } else if d == 8 {
        '8'
    } else {
        '9'
    }
}

fn push_nat_digits(dst: &mut Vec<char>, n: u64)
    ensures
        final(dst)@ == old(dst)@ + nat_digits(n as nat),
    decreases n,
{
    if n < 10 {
        dst.push(digit_of(n));
        assert(dst@ =~= old(dst)@ + nat_digits(n as nat));
    } else {
        push_nat_digits(dst, n / 10);
        dst.push(digit_of(n % 10));
        assert(dst@ =~= old(dst)@ + nat_digits(n as nat));
    }
}

/// The characters of `n` in decimal.
pub fn decimal_chars(n: i64) -> (v: Vec<char>)
    ensures
        v@ == decimal(n as int),
{
    let mut v: Vec<char> = Vec::new();
    if n < 0 {
        v.push('-');
        let magnitude: u64 = if n == i64::MIN {
            9223372036854775808u64
        } else {
            (-n) as u64
        };
        push_nat_digits(&mut v, magnitude);
    } else {
        push_nat_digits(&mut v, n as u64);
    }
    assert(v@ =~= decimal(n as int));
    v
}

/// `s` with every run of `c` shortened to a single `c`.
pub fn squeeze_chars(s: &Vec<char>, c: char) -> (v: Vec<char>)
    ensures
        v@ == squeeze(s@, c),
{
    let mut v: Vec<char> = Vec::new();
    let mut i: usize = 0;
    while i < s.len()
        invariant
            i <= s.len(),
            v@ == squeeze(s@.take(i as int), c),
        decreases s.len() - i,
    {
        proof {
            let next = s@.take(i + 1);
            assert(next.drop_last() == s@.take(i as int));
            assert(next.last() == s@[i as int]);
            if i >= 1 {
                assert(next[next.len() - 2] == s@[i - 1]);
            }
        }
        if !(s[i] == c && i >= 1 && s[i - 1] == c) {
            v.push(s[i]);
        }
        i += 1;
    }
    assert(s@.take(s.len() as int) == s@);
    v
}

/// Where `strip_start` begins to keep: the characters before that place are
/// all `a` or `b`, and the one at it, if any, is neither.
pub proof fn lemma_strip_start(s: Seq<char>, a: char, b: char, k: int)
    requires
        0 <= k <= s.len(),
        forall|j: int| 0 <= j < k ==> s[j] == a || s[j] == b,
        k < s.len() ==> s[k] != a && s[k] != b,
    ensures
        strip_start(s, a, b) == s.subrange(k, s.len() as int),
    decreases k,
{
    if k == 0 {
        assert(s.subrange(0, s.len() as int) == s);
    } else {
        let rest = s.drop_first();
        assert forall|j: int| 0 <= j < k - 1 implies rest[j] == a || rest[j] == b by {
            assert(rest[j] == s[j + 1]);
        }
        lemma_strip_start(rest, a, b, k - 1);
        assert(rest.subrange(k - 1, rest.len() as int) == s.subrange(k, s.len() as int));
    }
}

/// Where `strip_end` stops keeping: the characters from that place on are all
/// `a` or `b`, and the one before it, if any, is neither.
pub proof fn lemma_strip_end(s: Seq<char>, a: char, b: char, k: int)
    requires
        0 <= k <= s.len(),
        forall|j: int| k <= j < s.len() ==> s[j] == a || s[j] == b,
        k > 0 ==> s[k - 1] != a && s[k - 1] != b,
    ensures
        strip_end(s, a, b) == s.subrange(0, k),
    decreases s.len() - k,
{
    if k == s.len() {
        assert(s.subrange(0, k) == s);
    } else {
        let init = s.drop_last();
        lemma_strip_end(init, a, b, k);
        assert(init.subrange(0, k) == s.subrange(0, k));
    }
}

/// `s` without the characters equal to `a` or `b` at either end.
pub fn strip_chars(s: &Vec<char>, a: char, b: char) -> (v: Vec<char>)
    ensures
        v@ == strip(s@, a, b),
{
    let mut lo: usize = 0;
    while lo < s.len() && (s[lo] == a || s[lo] == b)
        invariant
            lo <= s.len(),
            forall|j: int| 0 <= j < lo ==> s@[j] == a || s@[j] == b,
        decreases s.len() - lo,
    {
        lo += 1;
    }
    let mut hi: usize = s.len();
    while hi > lo && (s[hi - 1] == a || s[hi - 1] == b)
        invariant
            lo <= hi <= s.len(),
            forall|j: int| hi <= j < s.len() ==> s@[j] == a || s@[j] == b,
        decreases hi - lo,
    {
        hi -= 1;
    }
    let mut v: Vec<char> = Vec::new();
    let mut i: usize = lo;
    while i < hi
        invariant
            lo <= i <= hi <= s.len(),
            v@ == s@.subrange(lo as int, i as int),
        decreases hi - i,
    {
        v.push(s[i]);
        i += 1;
    }
    proof {
        lemma_strip_start(s@, a, b, lo as int);
        let mid = s@.subrange(lo as int, s.len() as int);
        assert forall|j: int| hi - lo <= j < mid.len() implies mid[j] == a || mid[j] == b by {
            assert(mid[j] == s@[lo + j]);
        }
        if hi > lo {
            assert(mid[hi - lo - 1] == s@[hi - 1]);
        }
        lemma_strip_end(mid, a, b, hi - lo);
        assert(mid.subrange(0, hi - lo) == s@.subrange(lo as int, hi as int));
    }
    v
}

} // verus!
