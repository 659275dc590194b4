//! The reading of the transfer tool's progress lines: whitespace-separated
//! tokens and sizes such as `10.5MiB`.

use vstd::prelude::*;
use crate::transfer::U64_MAX;

verus! {

/// Whether `c` is white space in Unicode's sense.
pub open spec fn is_space(c: char) -> bool {
    ('\u{9}' <= c && c <= '\u{d}') || c == ' ' || c == '\u{85}' || c == '\u{a0}' || c == '\u{1680}'
        || ('\u{2000}' <= c && c <= '\u{200a}') || c == '\u{2028}' || c == '\u{2029}'
        || c == '\u{202f}' || c == '\u{205f}' || c == '\u{3000}'
}

pub fn is_space_char(c: char) -> (r: bool)
    ensures
        r == is_space(c),
{
    ('\u{9}' <= c && c <= '\u{d}') || c == ' ' || c == '\u{85}' || c == '\u{a0}' || c == '\u{1680}'
        || ('\u{2000}' <= c && c <= '\u{200a}') || c == '\u{2028}' || c == '\u{2029}'
        || c == '\u{202f}' || c == '\u{205f}' || c == '\u{3000}'
}

pub open spec fn flush(cur: Seq<char>) -> Seq<Seq<char>> {
    if cur.len() == 0 {
        Seq::empty()
    } else {
        seq![cur]
    }
}

/// The tokens of `s` after the partial token `cur`.
pub open spec fn split_tokens(s: Seq<char>, cur: Seq<char>) -> Seq<Seq<char>>
    decreases s.len(),
{
    if s.len() == 0 {
        flush(cur)
    } else if is_space(s[0]) {
        flush(cur) + split_tokens(s.drop_first(), Seq::empty())
    } else {
        split_tokens(s.drop_first(), cur.push(s[0]))
    }
}

/// The maximal runs of non-space characters of `s`, in order.
pub open spec fn tokens(s: Seq<char>) -> Seq<Seq<char>> {
    split_tokens(s, Seq::empty())
}

pub open spec fn chars_view(v: Seq<Vec<char>>) -> Seq<Seq<char>> {
    v.map_values(|t: Vec<char>| t@)
}

/// The characters of `s`.
pub fn chars_of(s: &str) -> (r: Vec<char>)
    ensures
        r@ == s@,
{
    let n = s.unicode_len();
    let mut r: Vec<char> = Vec::new();
    let mut k: usize = 0;
    while k < n
        invariant
            n == s@.len(),
            k <= n,
            r@ == s@.subrange(0, k as int),
        decreases n - k,
    {
        r.push(s.get_char(k));
        k = k + 1;
        proof {
            assert(r@ =~= s@.subrange(0, k as int));
        }
    }
    proof {
        assert(r@ =~= s@);
    }
    r
}

/// The whitespace-separated tokens of `s`.
pub fn split_whitespace(s: &Vec<char>) -> (r: Vec<Vec<char>>)
    ensures
        chars_view(r@) == tokens(s@),
{
    let n = s.len();
    let mut acc: Vec<Vec<char>> = Vec::new();
    let mut cur: Vec<char> = Vec::new();
    let mut k: usize = 0;
    proof {
        assert(chars_view(acc@) =~= Seq::<Seq<char>>::empty());
        assert(s@.subrange(0, n as int) =~= s@);
    }
    while k < n
        invariant
            n == s@.len(),
            k <= n,
            chars_view(acc@) + split_tokens(s@.subrange(k as int, n as int), cur@) == tokens(s@),
        decreases n - k,
    {
        let ghost rest = s@.subrange(k as int, n as int);
        let ghost prev_acc = chars_view(acc@);
        let ghost prev_cur = cur@;
        proof {
            assert(rest.drop_first() =~= s@.subrange(k + 1, n as int));
        }
        let c = s[k];
        if is_space_char(c) {
            if cur.len() > 0 {
                acc.push(cur);
            }
            cur = Vec::new();
            proof {
                assert(chars_view(acc@) =~= prev_acc + flush(prev_cur));
                assert((prev_acc + flush(prev_cur)) + split_tokens(rest.drop_first(), Seq::empty())
                    =~= prev_acc + (flush(prev_cur) + split_tokens(rest.drop_first(), Seq::empty())));
                assert(cur@ =~= Seq::<char>::empty());
            }
        } else {
            cur.push(c);
        }
        k = k + 1;
    }
    proof {
        assert(s@.subrange(n as int, n as int) =~= Seq::<char>::empty());
    }
    if cur.len() > 0 {
        acc.push(cur);
    }
    proof {
        assert(chars_view(acc@) =~= tokens(s@));
    }
    acc
}

/// `s` without its leading white space.
pub open spec fn trim_start(s: Seq<char>) -> Seq<char>
    decreases s.len(),
{
    if s.len() > 0 && is_space(s[0]) {
        trim_start(s.drop_first())
    } else {
        s
    }
}

/// `s` without its trailing white space.
pub open spec fn trim_end(s: Seq<char>) -> Seq<char>
    decreases s.len(),
{
    if s.len() > 0 && is_space(s.last()) {
        trim_end(s.drop_last())
    } else {
        s
    }
}

/// `s` without white space at either end.
pub open spec fn trim(s: Seq<char>) -> Seq<char> {
    trim_end(trim_start(s))
}

/// `s` without the copies of `c` at its end.
pub open spec fn strip_trailing(s: Seq<char>, c: char) -> Seq<char>
    decreases s.len(),
{
    if s.len() > 0 && s.last() == c {
        strip_trailing(s.drop_last(), c)
    } else {
        s
    }
}

/// The characters of `s` from `lo` up to `hi`.
pub fn slice_chars(s: &Vec<char>, lo: usize, hi: usize) -> (r: Vec<char>)
    requires
        lo <= hi <= s@.len(),
    ensures
        r@ == s@.subrange(lo as int, hi as int),
{
    let mut r: Vec<char> = Vec::new();
    let mut k: usize = lo;
    while k < hi
        invariant
            lo <= k <= hi,
            hi <= s@.len(),
            r@ == s@.subrange(lo as int, k as int),
        decreases hi - k,
    {
        r.push(s[k]);
        k = k + 1;
        proof {
            assert(r@ =~= s@.subrange(lo as int, k as int));
        }
    }
    r
}

/// `s` without white space at either end.
pub fn trim_chars(s: &Vec<char>) -> (r: Vec<char>)
    ensures
        r@ == trim(s@),
{
    let n = s.len();
    let mut lo: usize = 0;
    proof {
        assert(s@.subrange(0, n as int) =~= s@);
    }
    while lo < n && is_space_char(s[lo])
        invariant
            lo <= n == s@.len(),
            trim_start(s@.subrange(lo as int, n as int)) == trim_start(s@),
        decreases n - lo,
    {
        proof {
            assert(s@.subrange(lo as int, n as int).drop_first() =~= s@.subrange(lo + 1, n as int));
        }
        lo = lo + 1;
    }
    let mut hi: usize = n;
    while hi > lo && is_space_char(s[hi - 1])
        invariant
            lo <= hi <= n == s@.len(),
            trim_end(s@.subrange(lo as int, hi as int)) == trim(s@),
        decreases hi,
    {
        proof {
            assert(s@.subrange(lo as int, hi as int).drop_last() =~= s@.subrange(lo as int, hi - 1));
        }
        hi = hi - 1;
    }
    slice_chars(s, lo, hi)
}

/// `s` without the commas at its end.
pub fn strip_trailing_commas(s: &Vec<char>) -> (r: Vec<char>)
    ensures
        r@ == strip_trailing(s@, ','),
{
    let mut hi: usize = s.len();
    proof {
        assert(s@.subrange(0, hi as int) =~= s@);
    }
    while hi > 0 && s[hi - 1] == ','
        invariant
            hi <= s@.len(),
            strip_trailing(s@.subrange(0, hi as int), ',') == strip_trailing(s@, ','),
        decreases hi,
    {
        proof {
            assert(s@.subrange(0, hi as int).drop_last() =~= s@.subrange(0, hi - 1));
        }
        hi = hi - 1;
    }
    slice_chars(s, 0, hi)
}

pub open spec fn is_digit(c: char) -> bool {
    '0' <= c && c <= '9'
}

pub open spec fn digit_val(c: char) -> nat {
    (c as u32 - '0' as u32) as nat
}

pub open spec fn all_digits(s: Seq<char>) -> bool {
    forall|i: int| 0 <= i < s.len() ==> is_digit(s[i])
}

/// The number that the decimal digits `s` write.
pub open spec fn digits_value(s: Seq<char>) -> nat
    decreases s.len(),
{
    if s.len() == 0 {
        0
    } else {
        digits_value(s.drop_last()) * 10 + digit_val(s.last())
    }
}

pub open spec fn pow10(n: nat) -> nat
    decreases n,
{
    if n == 0 {
        1
    } else {
        10 * pow10((n - 1) as nat)
    }
}

/// The position of the first `.` of `s` at or after `from`, or the length of `s`.
pub open spec fn dot_index(s: Seq<char>, from: int) -> int
    decreases s.len() - from,
{
    if from >= s.len() {
        s.len() as int
    } else if s[from] == '.' {
        from
    } else {
        dot_index(s, from + 1)
    }
}

/// Most digits read before the point.
pub const MAX_INT_DIGITS: usize = 19;

/// Most digits read after the point.
pub const MAX_FRACTION_DIGITS: usize = 18;

/// The whole part of the number `s` writes, in units.
pub open spec fn int_part(s: Seq<char>) -> Seq<char> {
    s.subrange(0, dot_index(s, 0))
}

pub open spec fn fraction_part(s: Seq<char>) -> Seq<char> {
    if dot_index(s, 0) < s.len() {
        s.subrange(dot_index(s, 0) + 1, s.len() as int)
    } else {
        Seq::empty()
    }
}

/// The bytes that `s`, a decimal number of units of `unit` bytes, stands for:
/// rounded down, and at most the largest `u64`. Digits, with at most one
/// point, one digit at least, and no more digits on either side than the
/// bounds above; anything else is no number.
pub open spec fn number_value(s: Seq<char>, unit: nat) -> Option<u64> {
    let ip = int_part(s);
    let fp = fraction_part(s);
    if all_digits(ip) && all_digits(fp) && ip.len() + fp.len() > 0 && ip.len() <= MAX_INT_DIGITS
        && fp.len() <= MAX_FRACTION_DIGITS {
        let v = digits_value(ip) * unit + digits_value(fp) * unit / pow10(fp.len());
        Some(if v > U64_MAX { U64_MAX } else { v as u64 })
    } else {
        None
    }
}

/// The number part of a size and the bytes of its unit.
pub open spec fn size_unit(t: Seq<char>) -> Option<(Seq<char>, nat)> {
    let n = t.len();
    if n >= 3 && t[n - 3] == 'G' && t[n - 2] == 'i' && t[n - 1] == 'B' {
        Some((t.subrange(0, n - 3), 1073741824nat))
    } else if n >= 3 && t[n - 3] == 'M' && t[n - 2] == 'i' && t[n - 1] == 'B' {
        Some((t.subrange(0, n - 3), 1048576nat))
    } else if n >= 3 && t[n - 3] == 'K' && t[n - 2] == 'i' && t[n - 1] == 'B' {
        Some((t.subrange(0, n - 3), 1024nat))
    } else if n >= 1 && t[n - 1] == 'B' {
        Some((t.subrange(0, n - 1), 1nat))
    } else {
        None
    }
}

/// The bytes that a size such as `10.5MiB` stands for.
pub open spec fn size_value(s: Seq<char>) -> Option<u64> {
    match size_unit(trim(s)) {
        Some((num, unit)) => number_value(num, unit),
        None => None,
    }
}

proof fn lemma_pow10_mono(a: nat, b: nat)
    requires
        a <= b,
    ensures
        1 <= pow10(a) <= pow10(b),
    decreases b,
{
    if a < b {
        lemma_pow10_mono(a, (b - 1) as nat);
    } else if a > 0 {
        lemma_pow10_mono((a - 1) as nat, (a - 1) as nat);
    }
}

proof fn lemma_pow10_19()
    ensures
        pow10(19) == 10000000000000000000,
{
    reveal_with_fuel(pow10, 20);
}

/// The value of the digits `s`, or `None` where a character is no digit.
fn digits_number(s: &Vec<char>) -> (r: Option<u128>)
    requires
        s@.len() <= MAX_INT_DIGITS,
    ensures
        match r {
            Some(v) => all_digits(s@) && v == digits_value(s@) && v < pow10(s@.len()),
            None => !all_digits(s@),
        },
{
    let mut v: u128 = 0;
    let mut k: usize = 0;
    while k < s.len()
        invariant
            k <= s@.len() <= MAX_INT_DIGITS,
            all_digits(s@.subrange(0, k as int)),
            v == digits_value(s@.subrange(0, k as int)),
            v < pow10(k as nat),
        decreases s@.len() - k,
    {
        let c = s[k];
        if !('0' <= c && c <= '9') {
            return None;
        }
        proof {
            lemma_pow10_mono((k + 1) as nat, 19);
            lemma_pow10_19();
            assert(s@.subrange(0, k + 1).drop_last() =~= s@.subrange(0, k as int));
            assert(v * 10 + 9 < pow10((k + 1) as nat)) by (nonlinear_arith)
                requires v < pow10(k as nat), pow10((k + 1) as nat) == 10 * pow10(k as nat);
        }
        v = v * 10 + (c as u32 - '0' as u32) as u128;
        k = k + 1;
    }
    proof {
        assert(s@.subrange(0, s@.len() as int) =~= s@);
    }
    Some(v)
}

/// Ten to the power `n`.
fn pow10_exec(n: usize) -> (r: u128)
    requires
        n <= MAX_INT_DIGITS,
    ensures
        r == pow10(n as nat),
{
    let mut r: u128 = 1;
    let mut k: usize = 0;
    while k < n
        invariant
            k <= n <= MAX_INT_DIGITS,
            r == pow10(k as nat),
        decreases n - k,
    {
        proof {
            lemma_pow10_mono((k + 1) as nat, 19);
            lemma_pow10_19();
        }
        r = r * 10;
        k = k + 1;
    }
    r
}

/// The bytes that the decimal number `s` of units of `unit` bytes stands for.
fn number_bytes(s: &Vec<char>, unit: u64) -> (r: Option<u64>)
    requires
        1 <= unit <= 1073741824,
    ensures
        r == number_value(s@, unit as nat),
{
    let n = s.len();
    let mut d: usize = 0;
    while d < n && s[d] != '.'
        invariant
            d <= n == s@.len(),
            dot_index(s@, d as int) == dot_index(s@, 0),
        decreases n - d,
    {
        d = d + 1;
    }
    let ip = slice_chars(s, 0, d);
    let fp = if d < n {
        slice_chars(s, d + 1, n)
    } else {
        Vec::new()
    };
    proof {
        assert(ip@ =~= int_part(s@));
        assert(fp@ =~= fraction_part(s@));
    }
    if ip.len() + fp.len() == 0 || ip.len() > MAX_INT_DIGITS || fp.len() > MAX_FRACTION_DIGITS {
        return None;
    }
    let iv = match digits_number(&ip) {
        Some(v) => v,
        None => return None,
    };
    let fv = match digits_number(&fp) {
        Some(v) => v,
        None => return None,
    };
    let p = pow10_exec(fp.len());
    proof {
        lemma_pow10_mono(ip@.len(), 19);
        lemma_pow10_mono(fp@.len(), 19);
        lemma_pow10_19();
        assert(iv * unit <= 10000000000000000000 * 1073741824) by (nonlinear_arith)
            requires iv < 10000000000000000000, unit <= 1073741824;
        assert(fv * unit <= 10000000000000000000 * 1073741824) by (nonlinear_arith)
            requires fv < 10000000000000000000, unit <= 1073741824;
    }
    let v: u128 = iv * unit as u128 + fv * unit as u128 / p;
    if v > U64_MAX as u128 {
        Some(U64_MAX)
    } else {
        Some(v as u64)
    }
}

/// The bytes that a size written by the transfer tool stands for: a decimal
/// number directly followed by one of the units `GiB`, `MiB`, `KiB` or `B`,
/// with white space around it allowed.
pub fn size_of_chars(s: &Vec<char>) -> (r: Option<u64>)
    ensures
        r == size_value(s@),
{
    let t = trim_chars(s);
    let n = t.len();
    if n >= 3 && t[n - 3] == 'G' && t[n - 2] == 'i' && t[n - 1] == 'B' {
        number_bytes(&slice_chars(&t, 0, n - 3), 1073741824)
    } else if n >= 3 && t[n - 3] == 'M' && t[n - 2] == 'i' && t[n - 1] == 'B' {
        number_bytes(&slice_chars(&t, 0, n - 3), 1048576)
    } else if n >= 3 && t[n - 3] == 'K' && t[n - 2] == 'i' && t[n - 1] == 'B' {
        number_bytes(&slice_chars(&t, 0, n - 3), 1024)
    } else if n >= 1 && t[n - 1] == 'B' {
        number_bytes(&slice_chars(&t, 0, n - 1), 1)
    } else {
        None
    }
}

} // verus!
