//! Unsigned integers written as decimal or hexadecimal text, in the forms that
//! `usize::to_string`, `str::parse::<usize>` and `usize::from_str_radix` use.
use crate::hexcode::{hex_value, is_hex_byte};
use vstd::prelude::*;

verus! {

/// The byte `+`.
pub const PLUS: u8 = 43;

/// Decimal text of `n`, without leading zeros.
pub open spec fn decimal_text(n: nat) -> Seq<u8>
    decreases n,
{
    if n < 10 {
        seq![(48 + n) as u8]
    } else {
        decimal_text(n / 10).push((48 + n % 10) as u8)
    }
}

/// Whether `c` is a digit in base `radix` (10 or 16; both cases for 16).
pub open spec fn is_radix_digit(c: u8, radix: nat) -> bool {
    if radix == 16 {
        is_hex_byte(c)
    } else {
        48 <= c <= 57
    }
}

/// The value of digit `c` in base `radix`.
pub open spec fn radix_digit_value(c: u8, radix: nat) -> int {
    if radix == 16 {
        hex_value(c)
    } else {
        c - 48
    }
}

/// The value of the digits `s` in base `radix`, most significant first.
pub open spec fn radix_value(s: Seq<u8>, radix: nat) -> int
    decreases s.len(),
{
    if s.len() == 0 {
        0
    } else {
        radix_value(s.drop_last(), radix) * radix + radix_digit_value(s.last(), radix)
    }
}

/// Whether every byte of `s` is a digit in base `radix`.
pub open spec fn all_radix_digits(s: Seq<u8>, radix: nat) -> bool {
    forall|i: int| 0 <= i < s.len() ==> is_radix_digit(#[trigger] s[i], radix)
}

/// The digits of an unsigned number's text: the text with one leading `+` dropped.
pub open spec fn unsigned_digits(s: Seq<u8>) -> Seq<u8> {
    if s.len() > 0 && s[0] == PLUS {
        s.skip(1)
    } else {
        s
    }
}

/// The `usize` that text `s` stands for in base `radix`: an optional `+`, then
/// one or more digits, with a value that fits; `None` otherwise.
pub open spec fn parse_unsigned_spec(s: Seq<u8>, radix: nat) -> Option<usize> {
    let d = unsigned_digits(s);
    if d.len() > 0 && all_radix_digits(d, radix) && radix_value(d, radix) <= usize::MAX {
        Some(radix_value(d, radix) as usize)
    } else {
        None
    }
}

proof fn lemma_radix_value_nonneg(s: Seq<u8>, radix: nat)
    requires
        radix == 10 || radix == 16,
        all_radix_digits(s, radix),
    ensures
        radix_value(s, radix) >= 0,
    decreases s.len(),
{
    if s.len() > 0 {
        lemma_radix_value_nonneg(s.drop_last(), radix);
        assert(is_radix_digit(s[s.len() - 1], radix));
        assert(radix_value(s.drop_last(), radix) * radix >= 0) by (nonlinear_arith)
            requires
                radix_value(s.drop_last(), radix) >= 0,
        ;
    }
}

proof fn lemma_radix_value_grows(s: Seq<u8>, i: int, radix: nat)
    requires
        radix == 10 || radix == 16,
        all_radix_digits(s, radix),
        0 <= i <= s.len(),
    ensures
        radix_value(s, radix) >= radix_value(s.take(i), radix),
    decreases s.len() - i,
{
    if i < s.len() {
        let t = s.take(i + 1);
        assert(t.drop_last() =~= s.take(i));
        assert(all_radix_digits(t, radix));
        assert(is_radix_digit(t[i], radix));
        lemma_radix_value_nonneg(s.take(i), radix);
        let p = radix_value(s.take(i), radix);
        assert(p * radix >= p) by (nonlinear_arith)
            requires
                p >= 0,
                radix >= 1,
        ;
        lemma_radix_value_grows(s, i + 1, radix);
    } else {
        assert(s.take(i) =~= s);
    }
}

/// Parses text `s` as `str::parse::<usize>` (radix 10) or
/// `usize::from_str_radix(_, 16)` (radix 16) do: `None` on error.
pub fn parse_unsigned(s: &[u8], radix: u32) -> (r: Option<usize>)
    requires
        radix == 10 || radix == 16,
    ensures
        r == parse_unsigned_spec(s@, radix as nat),
{
    let start: usize = if s.len() > 0 && s[0] == PLUS {
        1
    } else {
        0
    };
    let ghost d = unsigned_digits(s@);
    assert(d =~= s@.skip(start as int));
    if start >= s.len() {
        return None;
    }
    let mut value: usize = 0;
    let mut i: usize = start;
    while i < s.len()
        invariant
            start <= i <= s.len(),
            d =~= s@.skip(start as int),
            d == unsigned_digits(s@),
            radix == 10 || radix == 16,
            all_radix_digits(d.take(i - start), radix as nat),
            value as int == radix_value(d.take(i - start), radix as nat),
        decreases s.len() - i,
    {
        let c = s[i];
        let is_digit = if radix == 16 {
            (48 <= c && c <= 57) || (65 <= c && c <= 70) || (97 <= c && c <= 102)
        } else {
            48 <= c && c <= 57
        };
        assert(d[i - start] == c);
        if !is_digit {
            assert(!is_radix_digit(d[i - start], radix as nat));
            assert(!all_radix_digits(d, radix as nat));
            assert(unsigned_digits(s@) == d);
            assert(parse_unsigned_spec(s@, radix as nat) is None);
            return None;
        }
        let dv: usize = if 48 <= c && c <= 57 {
            (c - 48) as usize
        } else if 65 <= c && c <= 70 {
            (c - 55) as usize
        } else {
            (c - 87) as usize
        };
        let ghost t = d.take(i + 1 - start);
        assert(t.drop_last() =~= d.take(i - start));
        assert(t.last() == c);
        assert(t.len() == i + 1 - start);
        assert(dv as int == radix_digit_value(c, radix as nat));
        if value > (usize::MAX - dv) / (radix as usize) {
            proof {
                assert(value * radix + dv > usize::MAX) by (nonlinear_arith)
                    requires
                        value > (usize::MAX - dv) / (radix as int),
                        radix > 0,
                        dv <= usize::MAX,
                ;
                assert(radix_value(t, radix as nat) > usize::MAX);
                if all_radix_digits(d, radix as nat) {
                    lemma_radix_value_grows(d, i + 1 - start, radix as nat);
                    assert(radix_value(d, radix as nat) > usize::MAX);
                }
                assert(unsigned_digits(s@) == d);
                assert(parse_unsigned_spec(s@, radix as nat) is None);
            }
            return None;
        }
        proof {
            assert(value * radix + dv <= usize::MAX) by (nonlinear_arith)
                requires
                    value <= (usize::MAX - dv) / (radix as int),
                    radix > 0,
                    dv <= usize::MAX,
            ;
        }
        value = value * (radix as usize) + dv;
        i = i + 1;
        assert(all_radix_digits(d.take(i - start), radix as nat));
    }
    assert(d.take(i - start) =~= d);
    Some(value)
}

proof fn lemma_decimal_text_digits(n: nat)
    ensures
        decimal_text(n).len() > 0,
        all_radix_digits(decimal_text(n), 10),
        radix_value(decimal_text(n), 10) == n,
    decreases n,
{
    if n < 10 {
        let t = decimal_text(n);
        assert(t.drop_last() =~= Seq::<u8>::empty());
        assert(radix_value(t.drop_last(), 10) == 0);
        assert(t.last() == (48 + n) as u8);
        assert(radix_digit_value(t.last(), 10) == n);
    } else {
        lemma_decimal_text_digits(n / 10);
        let t = decimal_text(n);
        assert(t.drop_last() =~= decimal_text(n / 10));
        assert(t.last() == (48 + n % 10) as u8);
        assert(radix_digit_value(t.last(), 10) == n % 10);
        assert(radix_value(t, 10) == radix_value(decimal_text(n / 10), 10) * 10 + n % 10);
        assert forall|i: int| 0 <= i < t.len() implies is_radix_digit(#[trigger] t[i], 10) by {
            if i < t.len() - 1 {
                assert(t[i] == decimal_text(n / 10)[i]);
            }
        }
    }
}

/// Every byte of a decimal text is a digit, so it holds no space, no NUL and
/// no `+`.
pub proof fn lemma_decimal_text_is_digits(n: nat)
    ensures
        decimal_text(n).len() > 0,
        forall|i: int|
            0 <= i < decimal_text(n).len() ==> 48 <= #[trigger] decimal_text(n)[i] <= 57,
{
    lemma_decimal_text_digits(n);
    assert forall|i: int| 0 <= i < decimal_text(n).len() implies 48 <= #[trigger] decimal_text(
        n,
    )[i] <= 57 by {
        assert(is_radix_digit(decimal_text(n)[i], 10));
    }
}

/// Reading back the decimal text of a `usize` gives that `usize`.
pub proof fn law_decimal_roundtrip(n: usize)
    ensures
        parse_unsigned_spec(decimal_text(n as nat), 10) == Some(n),
{
    lemma_decimal_text_digits(n as nat);
    lemma_decimal_text_is_digits(n as nat);
    let t = decimal_text(n as nat);
    assert(48 <= t[0] <= 57);
    assert(unsigned_digits(t) == t);
}

proof fn lemma_decimal_text_first(n: nat)
    ensures
        decimal_text(n).len() > 0,
        n >= 1 ==> decimal_text(n)[0] != 48,
        n == 0 ==> decimal_text(n) == seq![48u8],
    decreases n,
{
    if n >= 10 {
        lemma_decimal_text_first(n / 10);
        assert(decimal_text(n)[0] == decimal_text(n / 10)[0]);
    }
}

/// The decimal text of `n` is what `usize::to_string` writes: one or more
/// ASCII digits whose value, most significant first, is `n`, with no leading
/// zero: it starts with `0` only for zero itself, which is the single digit `0`.
pub proof fn law_decimal_text_canonical(n: nat)
    ensures
        decimal_text(n).len() > 0,
        forall|i: int| 0 <= i < decimal_text(n).len() ==> 48 <= #[trigger] decimal_text(n)[i] <= 57,
        radix_value(decimal_text(n), 10) == n,
        decimal_text(n)[0] == 48 ==> n == 0 && decimal_text(n).len() == 1,
{
    lemma_decimal_text_is_digits(n);
    lemma_decimal_text_digits(n);
    lemma_decimal_text_first(n);
}

/// `usize::to_string`, as bytes: the decimal text of `n`.
pub fn decimal_bytes(n: usize) -> (v: Vec<u8>)
    ensures
        v@ == decimal_text(n as nat),
    decreases n,
{
    if n < 10 {
        let d: u8 = (48 + n) as u8;
        let mut v: Vec<u8> = Vec::new();
        v.push(d);
        assert(v@ =~= seq![(48 + n) as u8]);
        v
    } else {
        let mut v = decimal_bytes(n / 10);
        let d: u8 = (48 + n % 10) as u8;
        v.push(d);
        v
    }
}

} // verus!
