//! Integers as decimal text: the numbers inside a token's claims.

use vstd::prelude::*;

verus! {

/// The byte `-`.
pub const MINUS: u8 = 45;

/// The byte `0`.
pub const ZERO: u8 = 48;

/// The largest magnitude of an `i64`: that of `i64::MIN`.
pub const MAGNITUDE_MAX: u64 = 9223372036854775808;

/// `b` is one of the bytes `0` to `9`.
pub open spec fn is_digit(b: u8) -> bool {
    48 <= b <= 57
}

/// The decimal digits of `n`, the most significant first, with no leading
/// zero.
pub open spec fn digits(n: nat) -> Seq<u8>
    decreases n,
{
    if n < 10 {
        seq![(48 + n) as u8]
    } else {
        digits(n / 10).push((48 + n % 10) as u8)
    }
}

/// The decimal text of `n`: its digits, after a `-` where `n` is negative.
pub open spec fn decimal(n: int) -> Seq<u8> {
    if n < 0 {
        seq![MINUS] + digits((-n) as nat)
    } else {
        digits(n as nat)
    }
}

/// The number that the digits `s` spell.
pub open spec fn digits_value(s: Seq<u8>) -> nat
    decreases s.len(),
{
    if s.len() == 0 {
        0
    } else {
        digits_value(s.drop_last()) * 10 + (s.last() - 48) as nat
    }
}

/// Every byte of `s` is a digit.
pub open spec fn all_digits(s: Seq<u8>) -> bool {
    forall|i: int| 0 <= i < s.len() ==> is_digit(#[trigger] s[i])
}

/// `s` is the way to write a number: digits, and no leading zero but in `0`
/// itself.
pub open spec fn canonical(s: Seq<u8>) -> bool {
    &&& s.len() >= 1
    &&& all_digits(s)
    &&& (s.len() == 1 || s[0] != ZERO)
}

/// The decimal text of `n` stands in `bytes` from `start` to `end`, and no
/// digit follows it.
pub open spec fn decimal_at(bytes: Seq<u8>, start: int, end: int, n: int) -> bool {
    &&& 0 <= start < end <= bytes.len()
    &&& bytes.subrange(start, end) == decimal(n)
    &&& (end == bytes.len() || !is_digit(bytes[end]))
}

/// The digits of a number are canonical and spell that number.
pub proof fn lemma_digits_spell(n: nat)
    ensures
        canonical(digits(n)),
        digits_value(digits(n)) == n,
        n > 0 ==> digits(n)[0] != ZERO,
    decreases n,
{
    if n < 10 {
        let s = digits(n);
        assert(s.drop_last() =~= Seq::<u8>::empty());
        assert(digits_value(s.drop_last()) == 0);
    } else {
        let high = digits(n / 10);
        let s = digits(n);
        lemma_digits_spell(n / 10);
        assert(s.drop_last() =~= high);
        assert(s[0] == high[0]);
        assert forall|i: int| 0 <= i < s.len() implies is_digit(#[trigger] s[i]) by {
            if i < high.len() {
                assert(s[i] == high[i]);
            }
        }
    }
}

/// Digits that begin with another digit than `0` spell a positive number.
proof fn lemma_value_positive(s: Seq<u8>)
    requires
        s.len() >= 1,
        all_digits(s),
        s[0] != ZERO,
    ensures
        digits_value(s) >= 1,
    decreases s.len(),
{
    if s.len() > 1 {
        let init = s.drop_last();
        assert(init[0] == s[0]);
        assert forall|i: int| 0 <= i < init.len() implies is_digit(#[trigger] init[i]) by {
            assert(init[i] == s[i]);
        }
        lemma_value_positive(init);
    } else {
        assert(s.drop_last() =~= Seq::<u8>::empty());
        assert(is_digit(s[0]));
    }
}

/// Canonical digits are the digits of the number they spell.
pub proof fn lemma_canonical_digits(s: Seq<u8>)
    requires
        canonical(s),
    ensures
        digits(digits_value(s)) == s,
    decreases s.len(),
{
    let init = s.drop_last();
    assert(is_digit(s.last()));
    if s.len() == 1 {
        assert(init =~= Seq::<u8>::empty());
        assert(digits_value(init) == 0);
        assert(digits(digits_value(s)) =~= s);
    } else {
        assert(init[0] == s[0]);
        assert forall|i: int| 0 <= i < init.len() implies is_digit(#[trigger] init[i]) by {
            assert(init[i] == s[i]);
        }
        lemma_value_positive(init);
        lemma_canonical_digits(init);
        let v = digits_value(s);
        let d = (s.last() - 48) as nat;
        assert(v == digits_value(init) * 10 + d);
        assert(v / 10 == digits_value(init) && v % 10 == d);
        assert(digits(v) =~= s);
    }
}

/// A longer run of digits spells no smaller a number than its beginning.
proof fn lemma_value_grows(s: Seq<u8>, k: int)
    requires
        all_digits(s),
        0 <= k <= s.len(),
    ensures
        digits_value(s.subrange(0, k)) <= digits_value(s),
    decreases s.len() - k,
{
    if k == s.len() {
        assert(s.subrange(0, k) =~= s);
    } else {
        let init = s.drop_last();
        assert forall|i: int| 0 <= i < init.len() implies is_digit(#[trigger] init[i]) by {
            assert(init[i] == s[i]);
        }
        lemma_value_grows(init, k);
        assert(init.subrange(0, k) =~= s.subrange(0, k));
        assert(is_digit(s.last()));
    }
}

/// Decimal text has one reading: where two numbers stand at the same place,
/// they are the same number and end at the same place.
pub proof fn lemma_decimal_at_unique(
    bytes: Seq<u8>,
    start: int,
    end1: int,
    n1: int,
    end2: int,
    n2: int,
)
    requires
        decimal_at(bytes, start, end1, n1),
        decimal_at(bytes, start, end2, n2),
    ensures
        end1 == end2,
        n1 == n2,
{
    let m1 = (if n1 < 0 { -n1 } else { n1 }) as nat;
    let m2 = (if n2 < 0 { -n2 } else { n2 }) as nat;
    lemma_digits_spell(m1);
    lemma_digits_spell(m2);
    lemma_strip_sign(bytes, start, end1, n1);
    lemma_strip_sign(bytes, start, end2, n2);
    let first = if n1 < 0 { start + 1 } else { start };
    if end1 < end2 {
        assert(bytes[end1] == bytes.subrange(first, end2)[end1 - first]);
        assert(is_digit(digits(m2)[end1 - first]));
    }
    if end2 < end1 {
        assert(bytes[end2] == bytes.subrange(first, end1)[end2 - first]);
        assert(is_digit(digits(m1)[end2 - first]));
    }
    assert(digits(m1) == digits(m2));
}

/// Where a number stands, its sign shows in the first byte and its digits
/// follow.
proof fn lemma_strip_sign(bytes: Seq<u8>, start: int, end: int, n: int)
    requires
        decimal_at(bytes, start, end, n),
    ensures
        (n < 0) == (bytes[start] == MINUS),
        bytes.subrange(if n < 0 { start + 1 } else { start }, end) == digits(
            (if n < 0 { -n } else { n }) as nat,
        ),
{
    let m = (if n < 0 { -n } else { n }) as nat;
    lemma_digits_spell(m);
    let text = bytes.subrange(start, end);
    assert(text[0] == bytes[start]);
    assert(is_digit(digits(m)[0]));
    if n < 0 {
        assert(text == seq![MINUS] + digits(m));
        assert(text.subrange(1, text.len() as int) =~= digits(m));
        assert(bytes.subrange(start + 1, end) =~= text.subrange(1, text.len() as int));
    }
}

/// The decimal text of an `i64` is at most twenty bytes long.
pub proof fn lemma_decimal_len(n: i64)
    ensures
        1 <= decimal(n as int).len() <= 20,
{
    let m = (if n < 0 { -n } else { n as int }) as nat;
    assert(pow10(19) == 10000000000000000000) by {
        reveal_with_fuel(pow10, 20);
    }
    lemma_digits_len(m, 19);
}

/// A number below ten to the `k` has at most `k` digits.
proof fn lemma_digits_len(n: nat, k: nat)
    requires
        k >= 1,
        n < pow10(k),
    ensures
        1 <= digits(n).len() <= k,
    decreases k,
{
    if n >= 10 {
        assert(k >= 2) by {
            reveal_with_fuel(pow10, 2);
        }
        lemma_digits_len(n / 10, (k - 1) as nat);
    }
}

/// Ten to the `k`.
pub open spec fn pow10(k: nat) -> nat
    decreases k,
{
    if k == 0 {
        1
    } else {
        10 * pow10((k - 1) as nat)
    }
}

/// Whether `b` is a digit.
pub fn is_digit_byte(b: u8) -> (r: bool)
    ensures
        r == is_digit(b),
{
    48 <= b && b <= 57
}

/// Appends the decimal text of `n` to `out`.
pub fn push_decimal(out: &mut Vec<u8>, n: i64)
    ensures
        final(out)@ == old(out)@ + decimal(n as int),
{
    let ghost before = out@;
    let magnitude: u64 = if n < 0 {
        out.push(MINUS);
        (-(n + 1)) as u64 + 1
    } else {
        n as u64
    };
    let ghost signed = out@;
    // The digits below the leading one, the least significant first.
    let mut low: Vec<u8> = Vec::new();
    let mut rest: u64 = magnitude;
    while rest >= 10
        invariant
            digits(magnitude as nat) == digits(rest as nat) + low@.reverse(),
        decreases rest,
    {
        let digit: u8 = ZERO + (rest % 10) as u8;
        proof {
            let next = low@.push(digit);
            assert(next.reverse() =~= seq![digit] + low@.reverse());
            assert(digits(rest as nat) == digits((rest / 10) as nat).push(digit));
            assert(digits((rest / 10) as nat).push(digit) + low@.reverse() =~= digits(
                (rest / 10) as nat,
            ) + (seq![digit] + low@.reverse()));
        }
        low.push(digit);
        rest = rest / 10;
    }
    out.push(ZERO + rest as u8);
    let ghost led = out@;
    proof {
        assert(digits(rest as nat) =~= seq![(48 + rest) as u8]);
        assert(led =~= signed + digits(rest as nat));
    }
    let mut i: usize = low.len();
    while i > 0
        invariant
            i <= low.len(),
            out@ == led + low@.reverse().subrange(0, low.len() - i),
        decreases i,
    {
        i = i - 1;
        proof {
            let turned = low@.reverse();
            assert(turned.subrange(0, low.len() - i) =~= turned.subrange(0, low.len() - i - 1).push(
                low@[i as int],
            ));
        }
        out.push(low[i]);
    }
    proof {
        assert(low@.reverse().subrange(0, low.len() as int) =~= low@.reverse());
        assert(out@ =~= signed + digits(magnitude as nat));
        assert(signed + digits(magnitude as nat) =~= before + decimal(n as int));
    }
}

/// Reads the decimal text of an `i64` that begins at `start`, and says where
/// it ends. There is none where no digit stands there, where the digits
/// begin with a needless zero, where `-0` stands there, or where the number
/// does not fit.
pub fn parse_decimal(bytes: &[u8], start: usize) -> (r: Option<(i64, usize)>)
    ensures
        match r {
            Some((n, end)) => decimal_at(bytes@, start as int, end as int, n as int),
            None => forall|n: i64, end: int| !#[trigger] decimal_at(bytes@, start as int, end, n as int),
        },
{
    let len = bytes.len();
    if start >= len {
        return None;
    }
    let negative = bytes[start] == MINUS;
    let first: usize = if negative { start + 1 } else { start };
    let mut end: usize = first;
    while end < len && is_digit_byte(bytes[end])
        invariant
            first <= end <= len,
            len == bytes@.len(),
            all_digits(bytes@.subrange(first as int, end as int)),
        decreases len - end,
    {
        proof {
            let run = bytes@.subrange(first as int, end + 1);
            assert forall|i: int| 0 <= i < run.len() implies is_digit(#[trigger] run[i]) by {
                if i < end - first {
                    assert(run[i] == bytes@.subrange(first as int, end as int)[i]);
                }
            }
        }
        end = end + 1;
    }
    let ghost run = bytes@.subrange(first as int, end as int);
    // What every reading of a number at `start` has to look like.
    assert forall|n: i64, e: int| #[trigger] decimal_at(bytes@, start as int, e, n as int) implies {
        &&& e == end
        &&& (n < 0) == negative
        &&& run == digits((if n < 0 { -n } else { n as int }) as nat)
    } by {
        let m = (if n < 0 { -n } else { n as int }) as nat;
        lemma_digits_spell(m);
        lemma_strip_sign(bytes@, start as int, e, n as int);
        if e < end {
            assert(bytes@[e] == run[e - first]);
        }
        if end < e {
            assert(bytes@[end as int] == bytes@.subrange(first as int, e)[end - first]);
            assert(is_digit(digits(m)[end - first]));
        }
    }
    if end == first {
        proof {
            assert forall|n: i64, e: int| !#[trigger] decimal_at(
                bytes@,
                start as int,
                e,
                n as int,
            ) by {
                if decimal_at(bytes@, start as int, e, n as int) {
                    lemma_digits_spell((if n < 0 { -n } else { n as int }) as nat);
                }
            }
        }
        return None;
    }
    if end - first > 1 && bytes[first] == ZERO {
        proof {
            assert(run[0] == bytes@[first as int]);
            assert forall|n: i64, e: int| !#[trigger] decimal_at(
                bytes@,
                start as int,
                e,
                n as int,
            ) by {
                if decimal_at(bytes@, start as int, e, n as int) {
                    lemma_digits_spell((if n < 0 { -n } else { n as int }) as nat);
                }
            }
        }
        return None;
    }
    assert(canonical(run)) by {
        assert(run[0] == bytes@[first as int]);
    }
    let mut value: u64 = 0;
    let mut i: usize = first;
    while i < end
        invariant
            first <= i <= end <= len,
            len == bytes@.len(),
            run == bytes@.subrange(first as int, end as int),
            all_digits(run),
            value == digits_value(run.subrange(0, i - first)),
            value <= MAGNITUDE_MAX,
            forall|n: i64, e: int| #[trigger]
                decimal_at(bytes@, start as int, e, n as int) ==> run == digits(
                    (if n < 0 { -n } else { n as int }) as nat,
                ),
        decreases end - i,
    {
        assert(is_digit(run[i - first]));
        assert(run[i - first] == bytes@[i as int]);
        let digit: u64 = (bytes[i] - ZERO) as u64;
        proof {
            let longer = run.subrange(0, i - first + 1);
            assert(longer.drop_last() =~= run.subrange(0, i - first));
            assert(longer.last() == run[i - first]);
            assert(digits_value(longer) == value * 10 + digit);
            lemma_value_grows(run, i - first + 1);
        }
        if value > 922337203685477580 || value * 10 + digit > MAGNITUDE_MAX {
            proof {
                assert forall|n: i64, e: int| !#[trigger] decimal_at(
                    bytes@,
                    start as int,
                    e,
                    n as int,
                ) by {
                    if decimal_at(bytes@, start as int, e, n as int) {
                        lemma_digits_spell((if n < 0 { -n } else { n as int }) as nat);
                    }
                }
            }
            return None;
        }
        value = value * 10 + digit;
        i = i + 1;
    }
    proof {
        assert(run.subrange(0, end - first) =~= run);
        lemma_canonical_digits(run);
    }
    if negative {
        if value == 0 {
            proof {
                assert forall|n: i64, e: int| !#[trigger] decimal_at(
                    bytes@,
                    start as int,
                    e,
                    n as int,
                ) by {
                    if decimal_at(bytes@, start as int, e, n as int) {
                        lemma_digits_spell((if n < 0 { -n } else { n as int }) as nat);
                    }
                }
            }
            return None;
        }
        let n: i64 = if value == MAGNITUDE_MAX {
            i64::MIN
        } else {
            -(value as i64)
        };
        proof {
            assert(bytes@.subrange(start as int, end as int) =~= seq![MINUS] + run);
        }
        Some((n, end))
    } else {
        if value == MAGNITUDE_MAX {
            proof {
                assert forall|n: i64, e: int| !#[trigger] decimal_at(
                    bytes@,
                    start as int,
                    e,
                    n as int,
                ) by {
                    if decimal_at(bytes@, start as int, e, n as int) {
                        lemma_digits_spell((if n < 0 { -n } else { n as int }) as nat);
                    }
                }
            }
            return None;
        }
        Some((value as i64, end))
    }
}

} // verus!
