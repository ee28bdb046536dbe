//! Digit strings: decimal and hexadecimal values, parsing and rendering.
use vstd::prelude::*;

verus! {

pub open spec fn pow10(n: nat) -> nat
    decreases n,
{
    if n == 0 {
        1
    } else {
        10 * pow10((n - 1) as nat)
    }
}

pub open spec fn is_hex_digit(c: char) -> bool {
    ('0' <= c && c <= '9') || ('a' <= c && c <= 'f') || ('A' <= c && c <= 'F')
}

pub open spec fn hex_digit_value(c: char) -> nat {
    if '0' <= c && c <= '9' {
        (c as nat - '0' as nat) as nat
    } else if 'a' <= c && c <= 'f' {
        (c as nat - 'a' as nat + 10) as nat
    } else {
        (c as nat - 'A' as nat + 10) as nat
    }
}

pub open spec fn all_hex_digits(s: Seq<char>) -> bool {
    forall|i: int| 0 <= i < s.len() ==> is_hex_digit(#[trigger] s[i])
}

/// The number that a string of hexadecimal digits denotes, most significant first.
pub open spec fn hex_value(s: Seq<char>) -> nat
    decreases s.len(),
{
    if s.len() == 0 {
        0
    } else {
        hex_value(s.drop_last()) * 16 + hex_digit_value(s.last())
    }
}

/// The digits of a hexadecimal literal: the text after one leading `0x`, if any.
pub open spec fn hex_body(s: Seq<char>) -> Seq<char> {
    if s.len() >= 2 && s[0] == '0' && s[1] == 'x' {
        s.skip(2)
    } else {
        s
    }
}

/// Whether `s` is a hexadecimal literal whose value fits in a `u64`.
pub open spec fn hex_parses(s: Seq<char>) -> bool {
    let d = hex_body(s);
    d.len() > 0 && all_hex_digits(d) && hex_value(d) <= u64::MAX
}

fn hex_digit(c: char) -> (r: Option<u64>)
    ensures
        is_hex_digit(c) <==> r.is_some(),
        r matches Some(v) ==> v == hex_digit_value(c) && v < 16,
{
    if '0' <= c && c <= '9' {
        Some((c as u32 - '0' as u32) as u64)
    } else if 'a' <= c && c <= 'f' {
        Some((c as u32 - 'a' as u32 + 10) as u64)
    } else if 'A' <= c && c <= 'F' {
        Some((c as u32 - 'A' as u32 + 10) as u64)
    } else {
        None
    }
}

/// Reads a hexadecimal integer with an optional `0x` prefix. Empty input,
/// a character that is not a hex digit, and a value beyond `u64` give `None`.
pub fn hex_to_decimal(hex_str: &str) -> (r: Option<u64>)
    ensures
        r.is_some() <==> hex_parses(hex_str@),
        r matches Some(v) ==> v as nat == hex_value(hex_body(hex_str@)),
{
    let n = hex_str.unicode_len();
    let mut start: usize = 0;
    if n >= 2 && hex_str.get_char(0) == '0' && hex_str.get_char(1) == 'x' {
        start = 2;
    }
    let ghost d = hex_body(hex_str@);
    assert(d =~= hex_str@.subrange(start as int, n as int));
    if start == n {
        return None;
    }
    let mut acc: u64 = 0;
    let mut overflow = false;
    let mut i: usize = start;
    while i < n
        invariant
            start <= i <= n,
            n == hex_str@.len(),
            d == hex_body(hex_str@),
            d =~= hex_str@.subrange(start as int, n as int),
            all_hex_digits(d.take(i - start)),
            !overflow ==> acc as nat == hex_value(d.take(i - start)),
            overflow ==> hex_value(d.take(i - start)) > u64::MAX,
        decreases n - i,
    {
        let c = hex_str.get_char(i);
        let ghost prev = d.take(i - start);
        let ghost next = d.take(i + 1 - start);
        assert(next.drop_last() =~= prev);
        assert(next.last() == c);
        match hex_digit(c) {
            None => {
                assert(d[i - start] == c);
                assert(!is_hex_digit(d[i - start]));
                assert(!all_hex_digits(d));
                return None;
            },
            Some(v) => {
                assert(all_hex_digits(next)) by {
                    assert forall|j: int| 0 <= j < next.len() implies is_hex_digit(#[trigger] next[j]) by {
                        if j < prev.len() {
                            assert(next[j] == prev[j]);
                        }
                    }
                }
                if !overflow && acc <= (u64::MAX - v) / 16 {
                    acc = acc * 16 + v;
                } else {
                    overflow = true;
                }
            },
        }
        i += 1;
    }
    assert(d.take(n - start) =~= d);
    if overflow {
        None
    } else {
        Some(acc)
    }
}

pub open spec fn is_digit(c: char) -> bool {
    '0' <= c && c <= '9'
}

pub open spec fn all_digits(s: Seq<char>) -> bool {
    forall|i: int| 0 <= i < s.len() ==> is_digit(#[trigger] s[i])
}

pub open spec fn digit_value(c: char) -> nat {
    (c as nat - '0' as nat) as nat
}

/// The number that a string of decimal digits denotes, most significant first.
pub open spec fn digits_value(s: Seq<char>) -> nat
    decreases s.len(),
{
    if s.len() == 0 {
        0
    } else {
        digits_value(s.drop_last()) * 10 + digit_value(s.last())
    }
}

pub open spec fn digit_char(d: nat) -> char {
    seq!['0', '1', '2', '3', '4', '5', '6', '7', '8', '9'][d as int]
}

/// The usual decimal notation of `v`: no leading zero, and `0` for zero.
pub open spec fn decimal_of(v: nat) -> Seq<char>
    decreases v,
{
    if v < 10 {
        seq![digit_char(v)]
    } else {
        decimal_of(v / 10).push(digit_char(v % 10))
    }
}

pub open spec fn zeros(n: nat) -> Seq<char> {
    Seq::new(n, |i: int| '0')
}

pub open spec fn strip_leading_zeros(s: Seq<char>) -> Seq<char>
    decreases s.len(),
{
    if s.len() > 1 && s[0] == '0' {
        strip_leading_zeros(s.skip(1))
    } else {
        s
    }
}

pub open spec fn strip_trailing_zeros(s: Seq<char>) -> Seq<char>
    decreases s.len(),
{
    if s.len() > 0 && s.last() == '0' {
        strip_trailing_zeros(s.drop_last())
    } else {
        s
    }
}

/// How many zeros go in front of `n` digits so that more than `k` remain
/// once the last `k` are taken as the fraction.
pub open spec fn pad_count(n: nat, k: nat) -> nat {
    if n > k {
        0
    } else {
        (k + 1 - n) as nat
    }
}

pub open spec fn padded(s: Seq<char>, k: nat) -> Seq<char> {
    zeros(pad_count(s.len(), k)) + s
}

/// The whole part of `s / 10^k`, without superfluous leading zeros.
pub open spec fn whole_digits(s: Seq<char>, k: nat) -> Seq<char> {
    let t = padded(s, k);
    strip_leading_zeros(t.take(t.len() - k))
}

/// The fractional part of `s / 10^k`, without trailing zeros.
pub open spec fn fraction_digits(s: Seq<char>, k: nat) -> Seq<char> {
    let t = padded(s, k);
    strip_trailing_zeros(t.skip(t.len() - k))
}

pub open spec fn point_text(whole: Seq<char>, fraction: Seq<char>) -> Seq<char> {
    if fraction.len() == 0 {
        whole
    } else {
        whole + seq!['.'] + fraction
    }
}

/// The digits `s` read as a number of units of `10^-k`, written in decimal:
/// `1500` with `k == 3` is `1.5`, `7` with `k == 2` is `0.07`.
pub open spec fn shifted_text(s: Seq<char>, k: nat) -> Seq<char> {
    point_text(whole_digits(s, k), fraction_digits(s, k))
}

fn digit_str(d: u64) -> (r: &'static str)
    requires
        d < 10,
    ensures
        r@ == seq![digit_char(d as nat)],
{
    proof {
        reveal_strlit("0");
        reveal_strlit("1");
        reveal_strlit("2");
        reveal_strlit("3");
        reveal_strlit("4");
        reveal_strlit("5");
        reveal_strlit("6");
        reveal_strlit("7");
        reveal_strlit("8");
        reveal_strlit("9");
    }
    let r = if d == 0 {
        "0"
    } else if d == 1 {
        "1"
    } else if d == 2 {
        "2"
    } else if d == 3 {
        "3"
    } else if d == 4 {
        "4"
    } else if d == 5 {
        "5"
    } else if d == 6 {
        "6"
    } else if d == 7 {
        "7"
    } else if d == 8 {
        "8"
    } else {
        "9"
    };
    assert(r@ =~= seq![digit_char(d as nat)]);
    r
}

/// Writes `v` in decimal.
pub fn decimal_text(v: u64) -> (r: String)
    ensures
        r@ == decimal_of(v as nat),
    decreases v,
{
    if v < 10 {
        String::from_str(digit_str(v))
    } else {
        let mut r = decimal_text(v / 10);
        r.append(digit_str(v % 10));
        r
    }
}

/// The character at index `i` of `padded(s, k)`, where `p` zeros lead.
fn padded_char(s: &str, p: usize, i: usize) -> (r: char)
    requires
        i < p + s@.len(),
    ensures
        r == (zeros(p as nat) + s@)[i as int],
{
    if i < p {
        '0'
    } else {
        s.get_char(i - p)
    }
}

/// Appends the characters `lo..hi` of `padded(s, k)`, where `p` zeros lead.
fn append_padded(out: &mut String, s: &str, p: usize, lo: usize, hi: usize)
    requires
        lo <= hi <= p + s@.len(),
    ensures
        final(out)@ == old(out)@ + (zeros(p as nat) + s@).subrange(lo as int, hi as int),
{
    let ghost t = zeros(p as nat) + s@;
    let mut i: usize = lo;
    while i < hi
        invariant
            lo <= i <= hi <= p + s@.len(),
            t == zeros(p as nat) + s@,
            out@ == old(out)@ + t.subrange(lo as int, i as int),
        decreases hi - i,
    {
        if i < p {
            out.append("0");
            proof {
                reveal_strlit("0");
            }
        } else {
            out.append(s.substring_char(i - p, i - p + 1));
        }
        assert(t.subrange(lo as int, i + 1) =~= t.subrange(lo as int, i as int) + seq![t[i as int]]);
        assert(out@ =~= old(out)@ + t.subrange(lo as int, i + 1));
        i += 1;
    }
}

/// Writes the digits `s` divided by `10^k` in decimal: the whole part without
/// superfluous leading zeros, then a point and the fraction without trailing
/// zeros, or no point where the fraction is zero.
pub fn shift_point(s: &str, k: usize) -> (r: String)
    requires
        k < usize::MAX,
    ensures
        r@ == shifted_text(s@, k as nat),
{
    let n = s.unicode_len();
    let p: usize = if n > k {
        0
    } else {
        k + 1 - n
    };
    let len: usize = n + p;
    let w_end: usize = len - k;
    let ghost t = padded(s@, k as nat);
    assert(t.len() == len);
    assert(t.take(w_end as int) =~= t.subrange(0, w_end as int));
    let mut a: usize = 0;
    while a + 1 < w_end && padded_char(s, p, a) == '0'
        invariant
            a < w_end <= len,
            len == p + s@.len(),
            p == pad_count(s@.len(), k as nat),
            t == padded(s@, k as nat),
            strip_leading_zeros(t.subrange(a as int, w_end as int)) == whole_digits(s@, k as nat),
        decreases w_end - a,
    {
        assert(t.subrange(a as int, w_end as int).skip(1) =~= t.subrange(a + 1, w_end as int));
        a += 1;
    }
    let mut b: usize = len;
    assert(t.skip(w_end as int) =~= t.subrange(w_end as int, len as int));
    while b > w_end && padded_char(s, p, b - 1) == '0'
        invariant
            w_end <= b <= len,
            len == p + s@.len(),
            p == pad_count(s@.len(), k as nat),
            t == padded(s@, k as nat),
            strip_trailing_zeros(t.subrange(w_end as int, b as int)) == fraction_digits(s@, k as nat),
        decreases b - w_end,
    {
        assert(t.subrange(w_end as int, b as int).drop_last() =~= t.subrange(w_end as int, b - 1));
        b -= 1;
    }
    let ghost whole = t.subrange(a as int, w_end as int);
    let ghost fraction = t.subrange(w_end as int, b as int);
    assert(strip_leading_zeros(whole) == whole);
    assert(strip_trailing_zeros(fraction) == fraction);
    let mut out = String::new();
    append_padded(&mut out, s, p, a, w_end);
    assert(out@ =~= whole);
    if b > w_end {
        out.append(".");
        proof {
            reveal_strlit(".");
        }
        append_padded(&mut out, s, p, w_end, b);
        assert(out@ =~= whole + seq!['.'] + fraction);
    }
    out
}

proof fn lemma_value_concat(a: Seq<char>, b: Seq<char>)
    ensures
        digits_value(a + b) == digits_value(a) * pow10(b.len()) + digits_value(b),
    decreases b.len(),
{
    if b.len() == 0 {
        assert(a + b =~= a);
        assert(pow10(0) == 1);
        assert(digits_value(a) * 1 == digits_value(a));
    } else {
        let b1 = b.drop_last();
        lemma_value_concat(a, b1);
        assert((a + b).drop_last() =~= a + b1);
        assert((a + b).last() == b.last());
        let x = digits_value(a);
        let y = digits_value(b1);
        let p = pow10(b1.len());
        let d = digit_value(b.last());
        assert(pow10(b.len()) == 10 * p);
        assert(digits_value(a + b) == digits_value(a + b1) * 10 + d);
        assert(digits_value(b) == y * 10 + d);
        assert((x * p + y) * 10 == x * (10 * p) + y * 10) by (nonlinear_arith);
    }
}

proof fn lemma_zeros_value(n: nat)
    ensures
        digits_value(zeros(n)) == 0,
    decreases n,
{
    if n > 0 {
        assert(zeros(n).drop_last() =~= zeros((n - 1) as nat));
        lemma_zeros_value((n - 1) as nat);
    }
}

proof fn lemma_strip_leading_value(s: Seq<char>)
    ensures
        digits_value(strip_leading_zeros(s)) == digits_value(s),
    decreases s.len(),
{
    if s.len() > 1 && s[0] == '0' {
        lemma_strip_leading_value(s.skip(1));
        assert(s =~= seq!['0'] + s.skip(1));
        lemma_value_concat(seq!['0'], s.skip(1));
        assert(seq!['0'].drop_last() =~= Seq::<char>::empty());
        assert(digits_value(Seq::<char>::empty()) == 0);
        assert(digit_value('0') == 0);
        assert(digits_value(seq!['0']) == 0);
        assert(0 * pow10(s.skip(1).len()) == 0);
    }
}

proof fn lemma_strip_trailing_value(s: Seq<char>)
    ensures
        strip_trailing_zeros(s).len() <= s.len(),
        digits_value(s) == digits_value(strip_trailing_zeros(s)) * pow10(
            (s.len() - strip_trailing_zeros(s).len()) as nat,
        ),
    decreases s.len(),
{
    if s.len() > 0 && s.last() == '0' {
        let r = strip_trailing_zeros(s);
        lemma_strip_trailing_value(s.drop_last());
        let s1 = s.drop_last();
        assert(r == strip_trailing_zeros(s1));
        let m = (s1.len() - r.len()) as nat;
        assert(pow10(m + 1) == 10 * pow10(m));
        let x = digits_value(r);
        assert(digit_value('0') == 0);
        assert(digits_value(s) == digits_value(s1) * 10);
        assert(digits_value(s1) == x * pow10(m));
        assert((s.len() - r.len()) as nat == m + 1);
        assert(x * pow10(m) * 10 == x * (10 * pow10(m))) by (nonlinear_arith);
    } else {
        assert(pow10(0) == 1);
        assert(digits_value(s) * 1 == digits_value(s));
    }
}

/// Writing digits with a decimal point `k` places from the right, then
/// scaling back by `10^k`, gives the digits' value exactly: the whole part
/// times `10^k` plus the fraction at its place equals the number that the digits denote.
pub proof fn lemma_shift_round_trip(s: Seq<char>, k: nat)
    ensures
        fraction_digits(s, k).len() <= k,
        shifted_text(s, k) == point_text(whole_digits(s, k), fraction_digits(s, k)),
        digits_value(whole_digits(s, k)) * pow10(k) + digits_value(fraction_digits(s, k)) * pow10(
            (k - fraction_digits(s, k).len()) as nat,
        ) == digits_value(s),
{
    let t = padded(s, k);
    let w = t.take(t.len() - k);
    let f = t.skip(t.len() - k);
    assert(t =~= w + f);
    lemma_value_concat(zeros(pad_count(s.len(), k)), s);
    lemma_zeros_value(pad_count(s.len(), k));
    lemma_value_concat(w, f);
    lemma_strip_leading_value(w);
    lemma_strip_trailing_value(f);
}

/// A `u64` written in decimal reads back as itself.
pub proof fn lemma_decimal_value(v: nat)
    ensures
        digits_value(decimal_of(v)) == v,
        decimal_of(v).len() > 0,
        all_digits(decimal_of(v)),
    decreases v,
{
    lemma_digit_char(v % 10);
    if v < 10 {
        assert(decimal_of(v).drop_last() =~= Seq::<char>::empty());
        assert(digits_value(Seq::<char>::empty()) == 0);
    } else {
        lemma_decimal_value(v / 10);
        assert(decimal_of(v).drop_last() =~= decimal_of(v / 10));
    }
}

proof fn lemma_digit_char(d: nat)
    requires
        d < 10,
    ensures
        digit_value(digit_char(d)) == d,
        is_digit(digit_char(d)),
{
    let ds = seq!['0', '1', '2', '3', '4', '5', '6', '7', '8', '9'];
    assert(ds[0] == '0' && ds[1] == '1' && ds[2] == '2' && ds[3] == '3' && ds[4] == '4');
    assert(ds[5] == '5' && ds[6] == '6' && ds[7] == '7' && ds[8] == '8' && ds[9] == '9');
}

} // verus!
