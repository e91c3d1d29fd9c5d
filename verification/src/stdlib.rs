use vstd::prelude::*;

use crate::module::RangeIterator;
use crate::text::{i64_to_string, int_text, push_char, push_str, utf8_len};

verus! {

// ---------------------------------------------------------------------------
// Integer arithmetic with Rust's meaning: quotients round toward zero and
// remainders take the dividend's sign. Inputs that overflow are left out.
// ---------------------------------------------------------------------------

/// The quotient that truncating division gives: `|a| / |b|`, negated when the signs differ.
pub open spec fn quot(a: int, b: int) -> int {
    let q = abs(a) / abs(b);
    if (a < 0) != (b < 0) {
        -q
    } else {
        q
    }
}

pub open spec fn abs(a: int) -> int {
    if a < 0 {
        -a
    } else {
        a
    }
}

/// The remainder that goes with `quot`.
pub open spec fn rem(a: int, b: int) -> int {
    a - b * quot(a, b)
}

pub open spec fn in_i64(x: int) -> bool {
    i64::MIN <= x <= i64::MAX
}

pub fn int_plus(a: &i64, b: i64) -> (r: i64)
    requires
        in_i64(*a + b),
    ensures
        r == *a + b,
{
    *a + b
}

pub fn int_plus_equal(a: &mut i64, b: i64)
    requires
        in_i64(*old(a) + b),
    ensures
        *final(a) == *old(a) + b,
{
    *a += b
}

pub fn int_minus(a: &i64, b: i64) -> (r: i64)
    requires
        in_i64(*a - b),
    ensures
        r == *a - b,
{
    *a - b
}

pub fn int_minus_equal(a: &mut i64, b: i64)
    requires
        in_i64(*old(a) - b),
    ensures
        *final(a) == *old(a) - b,
{
    *a -= b
}

pub fn int_multiply(a: &i64, b: i64) -> (r: i64)
    requires
        in_i64(*a * b),
    ensures
        r == *a * b,
{
    *a * b
}

pub fn int_multiply_equal(a: &mut i64, b: i64)
    requires
        in_i64(*old(a) * b),
    ensures
        *final(a) == *old(a) * b,
{
    *a *= b
}

proof fn lemma_quot_bounds(a: int, b: int)
    requires
        b != 0,
    ensures
        abs(a) / abs(b) <= abs(a),
        abs(a) / abs(b) >= 0,
{
    assert(abs(a) / abs(b) <= abs(a)) by (nonlinear_arith)
        requires
            abs(b) >= 1,
            abs(a) >= 0,
    ;
    assert(abs(a) / abs(b) >= 0) by (nonlinear_arith)
        requires
            abs(b) >= 1,
            abs(a) >= 0,
    ;
}

/// Truncating division on `i64`, written with unsigned magnitudes.
fn div_i64(a: i64, b: i64) -> (r: i64)
    requires
        b != 0,
        !(a == i64::MIN && b == -1),
    ensures
        r == quot(a as int, b as int),
{
    let ua: u64 = if a < 0 {
        if a == i64::MIN {
            9223372036854775808u64
        } else {
            (-a) as u64
        }
    } else {
        a as u64
    };
    let ub: u64 = if b < 0 {
        if b == i64::MIN {
            9223372036854775808u64
        } else {
            (-b) as u64
        }
    } else {
        b as u64
    };
    let q: u64 = ua / ub;
    proof {
        lemma_quot_bounds(a as int, b as int);
        assert(ua as int == abs(a as int));
        assert(ub as int == abs(b as int));
        if ub == 1 {
            assert(q == ua) by (nonlinear_arith)
                requires
                    ub == 1,
                    q == ua / ub,
            ;
        } else {
            assert(q <= ua / 2) by (nonlinear_arith)
                requires
                    ub >= 2,
                    q == ua / ub,
            ;
        }
    }
    if (a < 0) != (b < 0) {
        if q == 9223372036854775808u64 {
            i64::MIN
        } else {
            -(q as i64)
        }
    } else {
        q as i64
    }
}

pub fn int_divide(a: &i64, b: i64) -> (r: i64)
    requires
        b != 0,
        !(*a == i64::MIN && b == -1),
    ensures
        r == quot(*a as int, b as int),
{
    div_i64(*a, b)
}

pub fn int_divide_equal(a: &mut i64, b: i64)
    requires
        b != 0,
        !(*old(a) == i64::MIN && b == -1),
    ensures
        *final(a) == quot(*old(a) as int, b as int),
{
    *a = div_i64(*a, b);
}

fn rem_i64(a: i64, b: i64) -> (r: i64)
    requires
        b != 0,
        !(a == i64::MIN && b == -1),
    ensures
        r == rem(a as int, b as int),
{
    let q = div_i64(a, b);
    proof {
        let qa = abs(a as int) / abs(b as int);
        assert(abs(a as int) % abs(b as int) < abs(b as int)) by (nonlinear_arith)
            requires
                abs(b as int) >= 1,
        ;
        assert(abs(b as int) * qa + abs(a as int) % abs(b as int) == abs(a as int))
            by (nonlinear_arith)
            requires
                abs(b as int) >= 1,
                qa == abs(a as int) / abs(b as int),
        ;
        assert(abs(a as int) % abs(b as int) >= 0) by (nonlinear_arith)
            requires
                abs(b as int) >= 1,
        ;
        assert(b * q == if (a < 0) {
            -(abs(b as int) * qa)
        } else {
            abs(b as int) * qa
        }) by (nonlinear_arith)
            requires
                q == quot(a as int, b as int),
                qa == abs(a as int) / abs(b as int),
        ;
    }
    a - b * q
}

pub fn int_remainder(a: &i64, b: i64) -> (r: i64)
    requires
        b != 0,
        !(*a == i64::MIN && b == -1),
    ensures
        r == rem(*a as int, b as int),
{
    rem_i64(*a, b)
}

pub fn int_remainder_equal(a: &mut i64, b: i64)
    requires
        b != 0,
        !(*old(a) == i64::MIN && b == -1),
    ensures
        *final(a) == rem(*old(a) as int, b as int),
{
    *a = rem_i64(*a, b);
}

pub fn int_greater(a: &i64, b: i64) -> (r: bool)
    ensures
        r == (*a > b),
{
    *a > b
}

pub fn int_greater_equal(a: &i64, b: i64) -> (r: bool)
    ensures
        r == (*a >= b),
{
    *a >= b
}

pub fn int_lesser(a: &i64, b: i64) -> (r: bool)
    ensures
        r == (*a < b),
{
    *a < b
}

pub fn int_lesser_equal(a: &i64, b: i64) -> (r: bool)
    ensures
        r == (*a <= b),
{
    *a <= b
}

pub fn int_equal(a: &i64, b: i64) -> (r: bool)
    ensures
        r == (*a == b),
{
    *a == b
}

pub fn int_not_equal(a: &i64, b: i64) -> (r: bool)
    ensures
        r == (*a != b),
{
    *a != b
}

pub fn int_negate(a: &i64) -> (r: i64)
    requires
        *a != i64::MIN,
    ensures
        r == -*a,
{
    -*a
}

pub fn int_abs(a: &i64) -> (r: i64)
    requires
        *a != i64::MIN,
    ensures
        r == abs(*a as int),
{
    if *a < 0 {
        -*a
    } else {
        *a
    }
}

/// `a` raised to `n`.
pub open spec fn pow(a: int, n: nat) -> int
    decreases n,
{
    if n == 0 {
        1
    } else {
        a * pow(a, (n - 1) as nat)
    }
}

proof fn lemma_pow_abs_monotone(a: int, k: nat, n: nat)
    requires
        k <= n,
        abs(a) >= 1,
    ensures
        abs(pow(a, k)) <= abs(pow(a, n)),
    decreases n,
{
    if k < n {
        lemma_pow_abs_monotone(a, k, (n - 1) as nat);
        let p = pow(a, (n - 1) as nat);
        assert(abs(a * p) == abs(a) * abs(p)) by (nonlinear_arith);
        assert(abs(a) * abs(p) >= abs(p)) by (nonlinear_arith)
            requires
                abs(a) >= 1,
                abs(p) >= 0,
        ;
    }
}

proof fn lemma_pow_abs_double(a: int, k: nat, n: nat)
    requires
        k < n,
        abs(a) >= 2,
    ensures
        2 * abs(pow(a, k)) <= abs(pow(a, n)),
    decreases n,
{
    let p = pow(a, (n - 1) as nat);
    assert(abs(a * p) == abs(a) * abs(p)) by (nonlinear_arith);
    assert(abs(a) * abs(p) >= 2 * abs(p)) by (nonlinear_arith)
        requires
            abs(a) >= 2,
            abs(p) >= 0,
    ;
    if k < n - 1 {
        lemma_pow_abs_double(a, k, (n - 1) as nat);
    }
}

proof fn lemma_pow_small(a: int, n: nat)
    requires
        -1 <= a <= 1,
    ensures
        -1 <= pow(a, n) <= 1,
    decreases n,
{
    if n > 0 {
        lemma_pow_small(a, (n - 1) as nat);
        let p = pow(a, (n - 1) as nat);
        assert(-1 <= a * p <= 1) by (nonlinear_arith)
            requires
                -1 <= a <= 1,
                -1 <= p <= 1,
        ;
    }
}

/// The exponent that `power as u32` keeps.
pub open spec fn exponent(power: i64) -> nat {
    (power as u32) as nat
}

pub fn int_pow(a: &i64, power: i64) -> (r: i64)
    requires
        in_i64(pow(*a as int, exponent(power))),
    ensures
        r == pow(*a as int, exponent(power)),
{
    let n: u32 = power as u32;
    let mut acc: i64 = 1;
    let mut i: u32 = 0;
    while i < n
        invariant
            0 <= i <= n,
            n as nat == exponent(power),
            acc == pow(*a as int, i as nat),
            in_i64(pow(*a as int, n as nat)),
        decreases n - i,
    {
        proof {
            assert(pow(*a as int, (i + 1) as nat) == *a * pow(*a as int, i as nat));
            if -1 <= *a <= 1 {
                lemma_pow_small(*a as int, (i + 1) as nat);
            } else if i + 1 < n {
                lemma_pow_abs_double(*a as int, (i + 1) as nat, n as nat);
            }
        }
        acc = *a * acc;
        i = i + 1;
    }
    acc
}

/// `a` raised to the exponent that `power as u32` keeps, where that fits in an `i64`.
pub fn checked_int_pow(a: &i64, power: i64) -> (r: Option<i64>)
    ensures
        r matches Some(v) ==> v == pow(*a as int, exponent(power)),
        r is None <==> !in_i64(pow(*a as int, exponent(power))),
{
    let n: u32 = power as u32;
    let mut acc: i64 = 1;
    let mut i: u32 = 0;
    while i < n
        invariant
            0 <= i <= n,
            n as nat == exponent(power),
            acc == pow(*a as int, i as nat),
        decreases n - i,
    {
        proof {
            assert(pow(*a as int, (i + 1) as nat) == *a * pow(*a as int, i as nat));
        }
        assert(acc * *a == *a * acc) by (nonlinear_arith);
        match acc.checked_mul(*a) {
            Some(next) => {
                acc = next;
            },
            None => {
                proof {
                    let p = pow(*a as int, (i + 1) as nat);
                    assert(p == acc * *a) by (nonlinear_arith)
                        requires
                            p == *a * acc,
                    ;
                    if -1 <= *a <= 1 {
                        lemma_pow_small(*a as int, (i + 1) as nat);
                    }
                    assert(!in_i64(p));
                    if i + 1 < n {
                        lemma_pow_abs_double(*a as int, (i + 1) as nat, n as nat);
                    }
                }
                return None;
            },
        }
        i = i + 1;
    }
    Some(acc)
}

pub fn int_min(a: &i64, b: i64) -> (r: i64)
    ensures
        r == if *a <= b {
            *a
        } else {
            b
        },
{
    if *a <= b {
        *a
    } else {
        b
    }
}

pub fn int_max(a: &i64, b: i64) -> (r: i64)
    ensures
        r == if b >= *a {
            b
        } else {
            *a
        },
{
    if b >= *a {
        b
    } else {
        *a
    }
}

pub fn int_range_exclusive(a: &i64, b: i64) -> (r: std::ops::Range<i64>)
    ensures
        r.start == *a,
        r.end == b,
{
    std::ops::Range { start: *a, end: b }
}

pub fn int_range_inclusive(a: &i64, b: i64) -> (r: std::ops::Range<i64>)
    requires
        b < i64::MAX,
    ensures
        r.start == *a,
        r.end == b + 1,
{
    std::ops::Range { start: *a, end: b + 1 }
}

/// An iterator over the integers of a range, from its start on.
pub fn int_range_into_iter(a: &std::ops::Range<i64>) -> (it: RangeIterator<i64>)
    ensures
        it.current == a.start,
        it.end == a.end,
{
    RangeIterator { current: a.start, end: a.end }
}

/// The next integer of a range iterator, which moves on by one; `None` once it reaches
/// the end.
pub fn range_iterator_next(it: &mut RangeIterator<i64>) -> (r: Option<i64>)
    ensures
        old(it).current < old(it).end ==> r == Some(old(it).current) && final(it).current == old(it).current + 1
            && final(it).end == old(it).end,
        old(it).current >= old(it).end ==> r is None && *final(it) == *old(it),
{
    if it.current < it.end {
        let v = it.current;
        it.current = it.current + 1;
        Some(v)
    } else {
        None
    }
}

// ---------------------------------------------------------------------------
// Booleans
// ---------------------------------------------------------------------------

pub fn bool_equal(a: &bool, b: bool) -> (r: bool)
    ensures
        r == (*a == b),
{
    *a == b
}

pub fn bool_not_equal(a: &bool, b: bool) -> (r: bool)
    ensures
        r == (*a != b),
{
    *a != b
}

pub fn bool_invert(a: &bool) -> (r: bool)
    ensures
        r == !*a,
{
    !*a
}

// ---------------------------------------------------------------------------
// Strings
// ---------------------------------------------------------------------------

/// The text `Display` gives a `bool`.
pub open spec fn bool_text(b: bool) -> Seq<char> {
    if b {
        seq!['t', 'r', 'u', 'e']
    } else {
        seq!['f', 'a', 'l', 's', 'e']
    }
}

pub fn int_to_string(a: &i64) -> (s: String)
    ensures
        s@ == int_text(*a as int),
{
    i64_to_string(*a)
}

fn push_bool(s: &mut String, b: bool)
    ensures
        final(s)@ == old(s)@ + bool_text(b),
{
    if b {
        push_char(s, 't');
        push_char(s, 'r');
        push_char(s, 'u');
        push_char(s, 'e');
    } else {
        push_char(s, 'f');
        push_char(s, 'a');
        push_char(s, 'l');
        push_char(s, 's');
        push_char(s, 'e');
    }
    assert(final(s)@ =~= old(s)@ + bool_text(b));
}

pub fn bool_to_string(a: &bool) -> (s: String)
    ensures
        s@ == bool_text(*a),
{
    let mut s = String::new();
    push_bool(&mut s, *a);
    assert(s@ =~= bool_text(*a));
    s
}

pub fn string_plus(a: &String, b: String) -> (s: String)
    ensures
        s@ == a@ + b@,
{
    let mut s = a.clone();
    push_str(&mut s, b.as_str());
    s
}

pub fn string_plus_equal(a: &mut String, b: String)
    ensures
        final(a)@ == old(a)@ + b@,
{
    push_str(a, b.as_str());
}

pub fn string_plus_int(a: &String, b: i64) -> (s: String)
    ensures
        s@ == a@ + int_text(b as int),
{
    let mut s = a.clone();
    crate::text::push_i64(&mut s, b);
    s
}

pub fn string_plus_bool(a: &String, b: bool) -> (s: String)
    ensures
        s@ == a@ + bool_text(b),
{
    let mut s = a.clone();
    push_bool(&mut s, b);
    s
}

pub fn string_equal(a: &String, b: String) -> (r: bool)
    ensures
        r == (a@ == b@),
{
    *a == b
}

pub fn string_not_equal(a: &String, b: String) -> (r: bool)
    ensures
        r == (a@ != b@),
{
    !(*a == b)
}

/// The UTF-8 bytes of a text.
pub open spec fn bytes_of(s: Seq<char>) -> Seq<u8> {
    vstd::utf8::encode_utf8(s)
}

pub fn string_len(a: &String) -> (n: i64)
    ensures
        n == (utf8_len(a@) as usize) as i64,
{
    proof {
        crate::text::lemma_utf8_len_encode(a@);
    }
    a.as_str().len() as i64
}

pub fn string_is_empty(a: &String) -> (r: bool)
    ensures
        r == (a@.len() == 0),
{
    a.as_str().is_empty()
}

/// `needle` occurs in `hay` starting at `i`.
pub open spec fn occurs_at(hay: Seq<char>, needle: Seq<char>, i: int) -> bool {
    0 <= i && i + needle.len() <= hay.len() && hay.subrange(i, i + needle.len()) == needle
}

pub open spec fn spec_contains(hay: Seq<char>, needle: Seq<char>) -> bool {
    exists|i: int| occurs_at(hay, needle, i)
}

pub fn string_contains(a: &String, b: String) -> (r: bool)
    ensures
        r == spec_contains(a@, b@),
{
    let hay = crate::text::chars_of(a.as_str());
    let needle = crate::text::chars_of(b.as_str());
    if needle.len() > hay.len() {
        assert forall|i: int| !occurs_at(a@, b@, i) by {}
        return false;
    }
    let mut i: usize = 0;
    while i <= hay.len() - needle.len()
        invariant
            hay@ == a@,
            needle@ == b@,
            needle.len() <= hay.len(),
            i <= hay.len() - needle.len() + 1,
            forall|j: int| 0 <= j < i ==> !occurs_at(a@, b@, j),
        decreases hay.len() - i,
    {
        let mut k: usize = 0;
        let mut same = true;
        while k < needle.len()
            invariant
                hay@ == a@,
                needle@ == b@,
                i + needle.len() <= hay.len(),
                0 <= k <= needle.len(),
                same == forall|m: int| 0 <= m < k ==> hay@[i + m] == needle@[m],
            decreases needle.len() - k,
        {
            if hay[i + k] != needle[k] {
                same = false;
            }
            k = k + 1;
        }
        if same {
            assert(hay@.subrange(i as int, i + needle.len()) =~= needle@);
            assert(occurs_at(a@, b@, i as int));
            return true;
        } else {
            assert(!occurs_at(a@, b@, i as int)) by {
                let m = choose|m: int| 0 <= m < needle.len() && hay@[i + m] != needle@[m];
                assert(hay@.subrange(i as int, i + needle.len())[m] != needle@[m]);
            }
        }
        i = i + 1;
    }
    assert forall|j: int| !occurs_at(a@, b@, j) by {
        if 0 <= j < i {
        }
    }
    false
}

/// `s` written `n` times.
pub open spec fn repeated(s: Seq<char>, n: nat) -> Seq<char>
    decreases n,
{
    if n == 0 {
        Seq::empty()
    } else {
        repeated(s, (n - 1) as nat) + s
    }
}

/// How many times `repeat` writes: negative counts write nothing.
pub open spec fn repeat_count(count: i64) -> nat {
    if count < 0 {
        0
    } else {
        count as nat
    }
}

pub fn string_repeat(a: &String, count: i64) -> (s: String)
    requires
        bytes_of(a@).len() * repeat_count(count) <= usize::MAX,
    ensures
        s@ == repeated(a@, repeat_count(count)),
{
    let n: i64 = if count < 0 {
        0
    } else {
        count
    };
    let mut s = String::new();
    let mut i: i64 = 0;
    while i < n
        invariant
            0 <= i <= n,
            n as nat == repeat_count(count),
            s@ == repeated(a@, i as nat),
        decreases n - i,
    {
        push_str(&mut s, a.as_str());
        i = i + 1;
    }
    s
}

/// The character position whose byte offset is `b`.
pub open spec fn char_index_at(s: Seq<char>, b: int) -> int {
    choose|k: int| 0 <= k <= s.len() && utf8_len(s.take(k)) == b
}

/// `b` is the byte offset of some character position of `s`.
pub open spec fn is_offset(s: Seq<char>, b: int) -> bool {
    exists|k: int| 0 <= k <= s.len() && utf8_len(s.take(k)) == b
}

/// The start offset after `substring` clamps it.
pub open spec fn clamp_low(x: i64) -> int {
    if x < 0 {
        0
    } else {
        x as int
    }
}

/// The end offset after `substring` clamps it to the byte length.
pub open spec fn clamp_end(x: i64, len: int) -> int {
    if clamp_low(x) <= len {
        clamp_low(x)
    } else {
        len
    }
}

/// Get a part of the string with a ``start`` and exclusive ``end`` byte index.
///
/// Returns the partial string or an empty string for invalid args.
pub fn string_substring(a: &String, start: i64, end: i64) -> (s: String)
    ensures
        ({
            let st = clamp_low(start);
            let en = clamp_end(end, utf8_len(a@) as int);
            if st < en && is_offset(a@, st) && is_offset(a@, en) {
                s@ == a@.subrange(char_index_at(a@, st), char_index_at(a@, en))
            } else {
                s@ == Seq::<char>::empty()
            }
        }),
{
    let lo: i64 = if start < 0 {
        0
    } else {
        start
    };
    let chars0 = crate::text::chars_of(a.as_str());
    let len0: u128 = crate::text::utf8_len_of(&chars0);
    let hi_raw: i64 = if end < 0 {
        0
    } else {
        end
    };
    let hi: i64 = if (hi_raw as u128) <= len0 {
        hi_raw
    } else {
        len0 as i64
    };
    if lo < hi && !(is_char_offset(a, lo) && is_char_offset(a, hi)) {
        return String::new();
    }
    proof {
        assert(lo == clamp_low(start));
        assert(hi == clamp_end(end, utf8_len(a@) as int));
    }
    let chars = crate::text::chars_of(a.as_str());
    let len: u128 = crate::text::utf8_len_of(&chars);
    let st: i64 = if start < 0 {
        0
    } else {
        start
    };
    let e: i64 = if end < 0 {
        0
    } else {
        end
    };
    if st as u128 >= len || e <= st {
        return String::new();
    }
    let en: i64 = if (e as u128) <= len {
        e
    } else {
        len as i64
    };
    // Walk the characters, noting the positions at the two byte offsets.
    let mut k: usize = 0;
    let mut off: u128 = 0;
    let mut k1: usize = 0;
    let mut k2: usize = 0;
    let ghost st_i = st as int;
    let ghost en_i = en as int;
    proof {
        assert(chars@.take(0) =~= Seq::<char>::empty());
        crate::text::lemma_utf8_len_ge_len(chars@);
    }
    while k < chars.len()
        invariant
            chars@ == a@,
            utf8_len(a@) == len,
            0 <= k <= chars.len(),
            off == utf8_len(chars@.take(k as int)),
            0 <= st_i < en_i <= len,
            st_i == st,
            en_i == en,
            is_offset(a@, st_i),
            is_offset(a@, en_i),
            st_i < off ==> k1 < k && utf8_len(chars@.take(k1 as int)) == st_i,
            en_i < off ==> k2 < k && utf8_len(chars@.take(k2 as int)) == en_i,
            off <= len,
            len <= 4 * chars.len(),
        decreases chars.len() - k,
    {
        if off == st as u128 {
            k1 = k;
        }
        if off == en as u128 {
            k2 = k;
        }
        let ghost old_off = off;
        proof {
            assert(chars@.take(k + 1) =~= chars@.take(k as int).push(chars@[k as int]));
            crate::text::lemma_utf8_len_push(chars@.take(k as int), chars@[k as int]);
            assert(chars@.take(chars@.len() as int) =~= chars@);
            if k + 1 < chars@.len() {
                crate::text::lemma_utf8_take_strict(chars@, k + 1, chars@.len() as int);
            } else {
                assert(chars@.take(k + 1) =~= chars@);
            }
        }
        off = off + crate::text::len_utf8(chars[k]) as u128;
        k = k + 1;
        proof {
            if old_off < st_i < off {
                let kk = choose|kk: int| 0 <= kk <= a@.len() && utf8_len(a@.take(kk)) == st_i;
                if kk < k {
                    if kk < k - 1 {
                        crate::text::lemma_utf8_take_strict(a@, kk, k - 1);
                    }
                } else if kk > k {
                    crate::text::lemma_utf8_take_strict(a@, k as int, kk);
                }
            }
            if old_off < en_i < off {
                let kk = choose|kk: int| 0 <= kk <= a@.len() && utf8_len(a@.take(kk)) == en_i;
                if kk < k {
                    if kk < k - 1 {
                        crate::text::lemma_utf8_take_strict(a@, kk, k - 1);
                    }
                } else if kk > k {
                    crate::text::lemma_utf8_take_strict(a@, k as int, kk);
                }
            }
        }
    }
    if off == en as u128 {
        k2 = k;
    }
    proof {
        assert(chars@.take(chars@.len() as int) =~= chars@);
        let kk1 = char_index_at(a@, st_i);
        let kk2 = char_index_at(a@, en_i);
        if kk1 != k1 {
            if kk1 < k1 {
                crate::text::lemma_utf8_take_strict(a@, kk1, k1 as int);
            } else {
                crate::text::lemma_utf8_take_strict(a@, k1 as int, kk1);
            }
        }
        if kk2 != k2 {
            if kk2 < k2 {
                crate::text::lemma_utf8_take_strict(a@, kk2, k2 as int);
            } else {
                crate::text::lemma_utf8_take_strict(a@, k2 as int, kk2);
            }
        }
        if k1 > k2 {
            crate::text::lemma_utf8_take_strict(a@, k2 as int, k1 as int);
        }
    }
    crate::text::string_from_chars(&chars, k1, k2)
}


/// Whether `b` is the byte offset of a character position of `a`.
pub fn is_char_offset(a: &String, b: i64) -> (r: bool)
    ensures
        r == is_offset(a@, b as int),
{
    let chars = crate::text::chars_of(a.as_str());
    let mut k: usize = 0;
    let mut off: u128 = 0;
    proof {
        assert(chars@.take(0) =~= Seq::<char>::empty());
    }
    while k < chars.len()
        invariant
            chars@ == a@,
            0 <= k <= chars.len(),
            off == utf8_len(chars@.take(k as int)),
            off <= 4 * k,
            forall|j: int| 0 <= j < k ==> utf8_len(#[trigger] chars@.take(j)) != b,
        decreases chars.len() - k,
    {
        if b >= 0 && off == b as u128 {
            return true;
        }
        proof {
            assert(chars@.take(k + 1) =~= chars@.take(k as int).push(chars@[k as int]));
            crate::text::lemma_utf8_len_push(chars@.take(k as int), chars@[k as int]);
        }
        off = off + crate::text::len_utf8(chars[k]) as u128;
        k = k + 1;
    }
    proof {
        assert(chars@.take(chars@.len() as int) =~= chars@);
    }
    if b >= 0 && off == b as u128 {
        return true;
    }
    proof {
        assert forall|j: int| 0 <= j <= a@.len() implies utf8_len(#[trigger] a@.take(j)) != b by {
            if j < k {
                assert(chars@.take(j) == a@.take(j));
            }
        }
    }
    false
}

/// Whether `repeat` can write `count` copies of `a`: the bytes it writes fit in a `usize`.
pub fn repeat_fits(a: &String, count: i64) -> (r: bool)
    ensures
        r == (bytes_of(a@).len() * repeat_count(count) <= usize::MAX),
{
    proof {
        crate::text::lemma_utf8_len_encode(a@);
    }
    let chars = crate::text::chars_of(a.as_str());
    let len: u128 = crate::text::utf8_len_of(&chars);
    let n: u128 = if count < 0 {
        0
    } else {
        count as u128
    };
    if n == 0 {
        return true;
    }
    if len > usize::MAX as u128 {
        assert(len * n >= len) by (nonlinear_arith)
            requires
                n >= 1,
                len >= 0,
        ;
        return false;
    }
    assert(len * n <= 0xffff_ffff_ffff_ffff * 0x7fff_ffff_ffff_ffff) by (nonlinear_arith)
        requires
            len <= 0xffff_ffff_ffff_ffff,
            n <= 0x7fff_ffff_ffff_ffff,
    ;
    len * n <= usize::MAX as u128
}

} // verus!
