//! Integers and reals as text: the decimal writing of integers, the reading
//! of integer text, and the recognition of real-number literals.
use vstd::prelude::*;
use crate::text::push_char;

verus! {

pub open spec fn is_digit(c: char) -> bool {
    '0' <= c && c <= '9'
}

pub open spec fn digit_value(c: char) -> int {
    c as int - '0' as int
}

pub open spec fn digit_char(d: int) -> char {
    (d + '0' as int) as char
}

pub open spec fn all_digits(s: Seq<char>) -> bool {
    forall|i: int| 0 <= i < s.len() ==> is_digit(#[trigger] s[i])
}

/// The number written by the decimal digits `s`.
pub open spec fn digits_value(s: Seq<char>) -> int
    decreases s.len(),
{
    if s.len() == 0 {
        0
    } else {
        digits_value(s.drop_last()) * 10 + digit_value(s.last())
    }
}

/// The decimal writing of `n`, without leading zeros.
pub open spec fn decimal_text(n: nat) -> Seq<char>
    decreases n,
{
    if n < 10 {
        seq![digit_char(n as int)]
    } else {
        decimal_text(n / 10).push(digit_char(n as int % 10))
    }
}

/// The decimal writing of `v`, with a leading `-` when it is negative.
pub open spec fn int_text(v: int) -> Seq<char> {
    if v < 0 {
        seq!['-'] + decimal_text((-v) as nat)
    } else {
        decimal_text(v as nat)
    }
}

/// What reading `s` as an `i64` gives: an optional `+` or `-`, then one or more
/// decimal digits, with a value in range.
pub open spec fn parse_i64_spec(s: Seq<char>) -> Option<i64> {
    let neg = s.len() > 0 && s[0] == '-';
    let body = if s.len() > 0 && (s[0] == '-' || s[0] == '+') {
        s.drop_first()
    } else {
        s
    };
    let v = if neg {
        -digits_value(body)
    } else {
        digits_value(body)
    };
    if body.len() > 0 && all_digits(body) && i64::MIN <= v <= i64::MAX {
        Some(v as i64)
    } else {
        None
    }
}

/// `s` is the text that an `i64` is written as.
pub open spec fn is_canonical_int(s: Seq<char>) -> bool {
    match parse_i64_spec(s) {
        Some(v) => int_text(v as int) == s,
        None => true,
    }
}

/// The character of the decimal digit `d`.
fn digit_to_char(d: u64) -> (c: char)
    requires
        d < 10,
    ensures
        c == digit_char(d as int),
{
    let b: u8 = 48u8 + d as u8;
    b as char
}

/// The decimal digits of `n`, least significant first.
fn digits_reversed(n: u64) -> (ds: Vec<char>)
    ensures
        ds.len() == decimal_text(n as nat).len(),
        forall|j: int|
            0 <= j < ds.len() ==> #[trigger] ds@[j] == decimal_text(n as nat)[ds.len() - 1 - j],
{
    let ghost t = decimal_text(n as nat);
    let mut m: u64 = n;
    let mut ds: Vec<char> = Vec::new();
    loop
        invariant
            t == decimal_text(n as nat),
            t.len() == decimal_text(m as nat).len() + ds.len(),
            t.take(decimal_text(m as nat).len() as int) == decimal_text(m as nat),
            forall|j: int| 0 <= j < ds.len() ==> #[trigger] ds@[j] == t[t.len() - 1 - j],
        decreases m,
    {
        let ghost tm = decimal_text(m as nat);
        let c = digit_to_char(m % 10);
        ds.push(c);
        if m < 10 {
            assert(tm == seq![c]);
            assert(t[t.len() - 1 - (ds.len() - 1)] == tm[0]);
            return ds;
        }
        let ghost rest = decimal_text((m / 10) as nat);
        assert(tm == rest.push(c));
        assert(t.take(rest.len() as int) =~= tm.take(rest.len() as int));
        assert(t.take(rest.len() as int) =~= rest);
        assert(t[t.len() - 1 - (ds.len() - 1)] == tm[rest.len() as int]);
        m = m / 10;
    }
}

/// The decimal writing of `n`.
fn u64_text(n: u64) -> (s: String)
    ensures
        s@ == decimal_text(n as nat),
{
    let ds = digits_reversed(n);
    let ghost t = decimal_text(n as nat);
    let mut s = String::new();
    let mut i: usize = ds.len();
    while i > 0
        invariant
            i <= ds.len() == t.len(),
            forall|j: int| 0 <= j < ds.len() ==> #[trigger] ds@[j] == t[t.len() - 1 - j],
            s@ == t.take(ds.len() - i),
        decreases i,
    {
        i = i - 1;
        push_char(&mut s, ds[i]);
        assert(s@ =~= t.take(ds.len() - i));
    }
    assert(t.take(t.len() as int) =~= t);
    s
}

/// The decimal writing of `n`.
pub fn usize_text(n: usize) -> (s: String)
    ensures
        s@ == decimal_text(n as nat),
{
    u64_text(n as u64)
}

/// The decimal writing of `v`, with a leading `-` when it is negative.
pub fn i64_text(v: i64) -> (s: String)
    ensures
        s@ == int_text(v as int),
{
    if v < 0 {
        let magnitude: u64 = (0i128 - v as i128) as u64;
        let digits = u64_text(magnitude);
        let mut s = String::new();
        push_char(&mut s, '-');
        s.append(digits.as_str());
        assert(s@ =~= seq!['-'] + decimal_text((-v) as nat));
        s
    } else {
        u64_text(v as u64)
    }
}

/// A prefix of a digit string is worth no more than the whole, and neither is
/// negative.
proof fn lemma_digits_prefix(s: Seq<char>, k: int)
    requires
        all_digits(s),
        0 <= k <= s.len(),
    ensures
        0 <= digits_value(s.take(k)) <= digits_value(s),
    decreases s.len(),
{
    if s.len() == 0 {
        assert(s.take(k) =~= s);
    } else if k == s.len() {
        assert(s.take(k) =~= s);
        lemma_digits_prefix(s.drop_last(), k - 1);
        assert(s.drop_last().take(k - 1) =~= s.drop_last());
    } else {
        lemma_digits_prefix(s.drop_last(), k);
        assert(s.drop_last().take(k) =~= s.take(k));
        assert(s.drop_last().take(s.len() - 1) =~= s.drop_last());
        lemma_digits_prefix(s.drop_last(), s.len() - 1);
    }
}

/// Reads `s` as an `i64`: an optional `+` or `-`, then one or more decimal
/// digits, with a value in range.
pub fn parse_i64(s: &str) -> (r: Option<i64>)
    ensures
        r == parse_i64_spec(s@),
{
    let v = crate::text::chars_of(s);
    let n = v.len();
    if n == 0 {
        return None;
    }
    let neg = v[0] == '-';
    let start: usize = if v[0] == '-' || v[0] == '+' {
        1
    } else {
        0
    };
    let ghost body = if s@.len() > 0 && (s@[0] == '-' || s@[0] == '+') {
        s@.drop_first()
    } else {
        s@
    };
    assert(body =~= v@.skip(start as int));
    if start == n {
        return None;
    }
    let limit: u64 = if neg {
        0x8000_0000_0000_0000u64
    } else {
        0x7FFF_FFFF_FFFF_FFFFu64
    };
    let mut acc: u64 = 0;
    let mut i: usize = start;
    while i < n
        invariant
            start <= i <= n == v.len(),
            start <= 1,
            v@ == s@,
            body == v@.skip(start as int),
            body == (if s@.len() > 0 && (s@[0] == '-' || s@[0] == '+') {
                s@.drop_first()
            } else {
                s@
            }),
            neg == (s@.len() > 0 && s@[0] == '-'),
            all_digits(body.take(i - start)),
            acc == digits_value(body.take(i - start)),
            acc <= limit,
            limit == (if neg { 0x8000_0000_0000_0000u64 } else { 0x7FFF_FFFF_FFFF_FFFFu64 }),
        decreases n - i,
    {
        let c = v[i];
        let ghost k = i - start;
        assert(body[k] == c);
        if !('0' <= c && c <= '9') {
            assert(!is_digit(body[k]));
            assert(!all_digits(body));
            return None;
        }
        let d: u8 = c as u8 - 48u8;
        assert(body.take(k + 1).drop_last() =~= body.take(k));
        assert(body.take(k + 1).last() == c);
        let next: u128 = acc as u128 * 10 + d as u128;
        assert(next == digits_value(body.take(k + 1)));
        if next > limit as u128 {
            proof {
                if all_digits(body) {
                    lemma_digits_prefix(body, k + 1);
                    assert(digits_value(body) > limit);
                }
            }
            return None;
        }
        acc = next as u64;
        i = i + 1;
        assert(all_digits(body.take(i - start))) by {
            assert forall|j: int| 0 <= j < i - start implies is_digit(#[trigger] body.take(i - start)[j]) by {
                if j < k {
                    assert(body.take(i - start)[j] == body.take(k)[j]);
                }
            }
        }
    }
    assert(body.take(n - start) =~= body);
    if neg {
        Some((0i128 - acc as i128) as i64)
    } else {
        Some(acc as i64)
    }
}

pub proof fn lemma_decimal_text_digits(n: nat)
    ensures
        decimal_text(n).len() >= 1,
        all_digits(decimal_text(n)),
        decimal_text(n)[0] != '-',
        decimal_text(n)[0] != '+',
        digits_value(decimal_text(n)) == n,
    decreases n,
{
    if n < 10 {
        let s = decimal_text(n);
        assert(s.drop_last() =~= Seq::<char>::empty());
        assert(digit_value(digit_char(n as int)) == n);
        assert(digits_value(s.drop_last()) == 0);
        assert(digits_value(s) == digits_value(s.drop_last()) * 10 + digit_value(s.last()));
    } else {
        lemma_decimal_text_digits(n / 10);
        let s = decimal_text(n);
        assert(s.drop_last() =~= decimal_text(n / 10));
        assert(s.last() == digit_char(n as int % 10));
        assert(digits_value(s) == digits_value(s.drop_last()) * 10 + digit_value(s.last()));
        assert(n == (n / 10) * 10 + n % 10);
        assert(digit_value(digit_char(n as int % 10)) == n as int % 10);
        assert(s[0] == decimal_text(n / 10)[0]);
    }
}

/// Reading the writing of an `i64` gives it back.
pub proof fn lemma_parse_int_text(v: i64)
    ensures
        parse_i64_spec(int_text(v as int)) == Some(v),
        is_canonical_int(int_text(v as int)),
{
    if v < 0 {
        let n = (-v) as nat;
        lemma_decimal_text_digits(n);
        let s = int_text(v as int);
        assert(s.drop_first() =~= decimal_text(n));
    } else {
        lemma_decimal_text_digits(v as nat);
    }
}

// ---------------------------------------------------------------------------
// Real-number literals, as std's `f64::from_str` documents them:
//   Float  ::= Sign? ( 'inf' | 'infinity' | 'nan' | Number )
//   Number ::= ( Digit+ | Digit+ '.' Digit* | Digit* '.' Digit+ ) Exp?
//   Exp    ::= 'e' Sign? Digit+
// read without regard to letter case.
pub open spec fn lower(c: char) -> char {
    if 'A' <= c && c <= 'Z' {
        (c as int + 32) as char
    } else {
        c
    }
}

pub open spec fn is_sign(c: char) -> bool {
    c == '+' || c == '-'
}

pub open spec fn strip_sign(s: Seq<char>) -> Seq<char> {
    if s.len() > 0 && is_sign(s[0]) {
        s.drop_first()
    } else {
        s
    }
}

/// Digits and at most one `.`, with at least one digit.
pub open spec fn is_mantissa(m: Seq<char>) -> bool {
    &&& forall|i: int| 0 <= i < m.len() ==> is_digit(#[trigger] m[i]) || m[i] == '.'
    &&& forall|i: int, j: int| #![trigger m[i], m[j]] 0 <= i < j < m.len() && m[i] == '.' ==> m[j] != '.'
    &&& exists|i: int| 0 <= i < m.len() && is_digit(#[trigger] m[i])
}

pub open spec fn is_exponent(x: Seq<char>) -> bool {
    strip_sign(x).len() > 0 && all_digits(strip_sign(x))
}

/// A mantissa, optionally followed by `e` and an exponent (`t` is lower-cased).
pub open spec fn is_number(t: Seq<char>) -> bool {
    ||| is_mantissa(t)
    ||| exists|p: int|
        0 <= p < t.len() && #[trigger] t[p] == 'e' && is_mantissa(t.take(p)) && is_exponent(
            t.skip(p + 1),
        )
}

pub open spec fn is_real_literal(s: Seq<char>) -> bool {
    let t = strip_sign(s.map_values(|c: char| lower(c)));
    ||| t == seq!['i', 'n', 'f']
    ||| t == seq!['i', 'n', 'f', 'i', 'n', 'i', 't', 'y']
    ||| t == seq!['n', 'a', 'n']
    ||| is_number(t)
}

fn lower_char(c: char) -> (r: char)
    ensures
        r == lower(c),
{
    if 'A' <= c && c <= 'Z' {
        let b: u8 = c as u8;
        assert(b == c as int);
        ((b + 32) as u8) as char
    } else {
        c
    }
}

fn is_digit_char(c: char) -> (r: bool)
    ensures
        r == is_digit(c),
{
    '0' <= c && c <= '9'
}

/// Whether `t[lo..hi]` is a mantissa.
fn mantissa_in(t: &Vec<char>, lo: usize, hi: usize) -> (r: bool)
    requires
        lo <= hi <= t.len(),
    ensures
        r == is_mantissa(t@.subrange(lo as int, hi as int)),
{
    let ghost m = t@.subrange(lo as int, hi as int);
    let mut dots: usize = 0;
    let mut digits: bool = false;
    let mut i = lo;
    while i < hi
        invariant
            lo <= i <= hi <= t.len(),
            m == t@.subrange(lo as int, hi as int),
            forall|k: int| 0 <= k < i - lo ==> is_digit(#[trigger] m[k]) || m[k] == '.',
            dots <= 1,
            dots == 0 ==> forall|k: int| 0 <= k < i - lo ==> #[trigger] m[k] != '.',
            dots == 1 ==> exists|k: int| 0 <= k < i - lo && #[trigger] m[k] == '.',
            dots == 1 ==> forall|k: int, l: int|
                #![trigger m[k], m[l]] 0 <= k < l < i - lo && m[k] == '.' ==> m[l] != '.',
            digits == exists|k: int| 0 <= k < i - lo && is_digit(#[trigger] m[k]),
        decreases hi - i,
    {
        let c = t[i];
        assert(m[i - lo] == c);
        if is_digit_char(c) {
            digits = true;
        } else if c == '.' {
            if dots == 1 {
                proof {
                    let k = choose|k: int| 0 <= k < i - lo && #[trigger] m[k] == '.';
                    assert(m[k] == '.' && m[i - lo] == '.');
                }
                return false;
            }
            dots = 1;
        } else {
            return false;
        }
        i = i + 1;
    }
    digits
}

/// Whether `t[lo..]` is an exponent.
fn exponent_in(t: &Vec<char>, lo: usize) -> (r: bool)
    requires
        lo <= t.len(),
    ensures
        r == is_exponent(t@.skip(lo as int)),
{
    let ghost x = t@.skip(lo as int);
    let mut start = lo;
    if lo < t.len() && (t[lo] == '+' || t[lo] == '-') {
        start = lo + 1;
    }
    assert(strip_sign(x) =~= t@.skip(start as int));
    if start >= t.len() {
        return false;
    }
    let mut i = start;
    while i < t.len()
        invariant
            start <= i <= t.len(),
            x == t@.skip(lo as int),
            strip_sign(x) == t@.skip(start as int),
            forall|k: int| start <= k < i ==> is_digit(#[trigger] t@[k]),
        decreases t.len() - i,
    {
        if !is_digit_char(t[i]) {
            assert(t@.skip(start as int)[i - start] == t@[i as int]);
            assert(!all_digits(t@.skip(start as int)));
            assert(!is_exponent(x));
            return false;
        }
        i = i + 1;
    }
    assert forall|k: int| 0 <= k < t@.skip(start as int).len() implies is_digit(
        #[trigger] t@.skip(start as int)[k],
    ) by {
        assert(t@.skip(start as int)[k] == t@[start + k]);
    }
    true
}

fn matches_word(t: &Vec<char>, w: &Vec<char>) -> (r: bool)
    ensures
        r == (t@ == w@),
{
    if t.len() != w.len() {
        return false;
    }
    let mut i: usize = 0;
    while i < t.len()
        invariant
            i <= t.len() == w.len(),
            forall|k: int| 0 <= k < i ==> t@[k] == w@[k],
        decreases t.len() - i,
    {
        if t[i] != w[i] {
            return false;
        }
        i = i + 1;
    }
    assert(t@ =~= w@);
    true
}

/// The lower-cased characters of `s`, without a leading sign.
fn unsigned_lowered(s: &str) -> (t: Vec<char>)
    ensures
        t@ == strip_sign(s@.map_values(|c: char| lower(c))),
{
    let v = crate::text::chars_of(s);
    let mut low: Vec<char> = Vec::new();
    let mut i: usize = 0;
    while i < v.len()
        invariant
            i <= v.len(),
            v@ == s@,
            low@ == v@.take(i as int).map_values(|c: char| lower(c)),
        decreases v.len() - i,
    {
        low.push(lower_char(v[i]));
        i = i + 1;
        assert(low@ =~= v@.take(i as int).map_values(|c: char| lower(c)));
    }
    assert(v@.take(v.len() as int) =~= v@);
    let ghost lw = s@.map_values(|c: char| lower(c));
    assert(low@ == lw);
    let mut t: Vec<char> = Vec::new();
    let start: usize = if low.len() > 0 && (low[0] == '+' || low[0] == '-') {
        1
    } else {
        0
    };
    let mut j = start;
    while j < low.len()
        invariant
            start <= j <= low.len(),
            start <= 1,
            t@ == low@.subrange(start as int, j as int),
        decreases low.len() - j,
    {
        t.push(low[j]);
        j = j + 1;
        assert(t@ =~= low@.subrange(start as int, j as int));
    }
    assert(t@ =~= strip_sign(lw));
    t
}

/// Whether `t` is a number: a mantissa, optionally followed by `e` and an exponent.
fn number_in(t: &Vec<char>) -> (r: bool)
    ensures
        r == is_number(t@),
{
    let ghost tt = t@;
    let mut p: usize = 0;
    while p < t.len() && t[p] != 'e'
        invariant
            p <= t.len(),
            forall|k: int| 0 <= k < p ==> t@[k] != 'e',
        decreases t.len() - p,
    {
        p = p + 1;
    }
    if p == t.len() {
        assert(t@.subrange(0, p as int) =~= t@);
        let r = mantissa_in(t, 0, p);
        proof {
            if !r {
                assert forall|q: int|
                    0 <= q < tt.len() && #[trigger] tt[q] == 'e' implies !(is_mantissa(tt.take(q))
                    && is_exponent(tt.skip(q + 1))) by {
                    assert(t@[q] != 'e');
                }
            }
        }
        r
    } else {
        assert(t@.subrange(0, p as int) =~= t@.take(p as int));
        let m = mantissa_in(t, 0, p);
        let e = exponent_in(t, p + 1);
        proof {
            assert(!is_mantissa(tt)) by {
                assert(tt[p as int] == 'e');
                assert(!is_digit(tt[p as int]));
            }
            if !(m && e) {
                assert forall|q: int|
                    0 <= q < tt.len() && #[trigger] tt[q] == 'e' implies !(is_mantissa(tt.take(q))
                    && is_exponent(tt.skip(q + 1))) by {
                    if q > p {
                        assert(tt.take(q)[p as int] == 'e');
                        assert(!is_digit(tt.take(q)[p as int]));
                    } else if q < p {
                        assert(t@[q] != 'e');
                    }
                }
            }
        }
        m && e
    }
}

/// Whether `s` is a real-number literal that std reads as an `f64`.
pub fn is_real_text(s: &str) -> (r: bool)
    ensures
        r == is_real_literal(s@),
{
    let t = unsigned_lowered(s);
    let inf = vec!['i', 'n', 'f'];
    let infinity = vec!['i', 'n', 'f', 'i', 'n', 'i', 't', 'y'];
    let nan = vec!['n', 'a', 'n'];
    assert(inf@ =~= seq!['i', 'n', 'f']);
    assert(infinity@ =~= seq!['i', 'n', 'f', 'i', 'n', 'i', 't', 'y']);
    assert(nan@ =~= seq!['n', 'a', 'n']);
    if matches_word(&t, &inf) || matches_word(&t, &infinity) || matches_word(&t, &nan) {
        return true;
    }
    number_in(&t)
}

} // verus!
