//! Decimal numerals, as they are kept on disk and shown in labels.

use vstd::prelude::*;
use vstd::string::StringExecFns;

verus! {

/// The byte `+`, which may stand before the digits of a numeral.
pub const PLUS: u8 = 43;

/// The byte `0`; the other digits follow it.
pub const ZERO: u8 = 48;

/// Whether `b` is one of the bytes `0` to `9`.
pub open spec fn is_decimal_digit(b: u8) -> bool {
    48 <= b <= 57
}

/// Whether every byte of `s` is a decimal digit.
pub open spec fn all_decimal(s: Seq<u8>) -> bool {
    forall|i: int| 0 <= i < s.len() ==> is_decimal_digit(#[trigger] s[i])
}

/// The number that the digit `b` stands for.
pub open spec fn decimal_digit_value(b: u8) -> nat {
    if is_decimal_digit(b) {
        (b - 48) as nat
    } else {
        0
    }
}

/// The number that the digits `s` write, most significant digit first.
pub open spec fn decimal_number(s: Seq<u8>) -> nat
    decreases s.len(),
{
    if s.len() == 0 {
        0
    } else {
        decimal_number(s.drop_last()) * 10 + decimal_digit_value(s.last())
    }
}

/// `s` without the one `+` that may lead it.
pub open spec fn unsigned_part(s: Seq<u8>) -> Seq<u8> {
    if s.len() > 0 && s[0] == 43 {
        s.skip(1)
    } else {
        s
    }
}

/// What `s` reads as: an optional `+`, then one or more decimal digits that
/// write a number no greater than `u64::MAX`. Anything else reads as nothing.
pub open spec fn parsed_decimal(s: Seq<u8>) -> Option<u64> {
    let d = unsigned_part(s);
    if d.len() > 0 && all_decimal(d) && decimal_number(d) <= u64::MAX {
        Some(decimal_number(d) as u64)
    } else {
        None
    }
}

/// The digits that write `n`, without leading zeros.
pub open spec fn decimal_digits(n: nat) -> Seq<u8>
    decreases n,
{
    if n < 10 {
        seq![(48 + n) as u8]
    } else {
        decimal_digits(n / 10).push((48 + n % 10) as u8)
    }
}

/// The characters that the ASCII bytes `s` encode.
pub open spec fn ascii_text(s: Seq<u8>) -> Seq<char> {
    s.map_values(|b: u8| b as char)
}

/// A numeral's leading digits never write more than the whole numeral.
pub proof fn lemma_decimal_prefix_le(s: Seq<u8>, k: int)
    requires
        0 <= k <= s.len(),
    ensures
        decimal_number(s.take(k)) <= decimal_number(s),
    decreases s.len(),
{
    if k == s.len() {
        assert(s.take(k) =~= s);
    } else {
        assert(s.drop_last().take(k) =~= s.take(k));
        lemma_decimal_prefix_le(s.drop_last(), k);
    }
}

/// The digits of a number are digits, and write that number.
pub proof fn lemma_decimal_digits_number(n: nat)
    ensures
        decimal_digits(n).len() > 0,
        all_decimal(decimal_digits(n)),
        decimal_number(decimal_digits(n)) == n,
    decreases n,
{
    if n < 10 {
        let s = decimal_digits(n);
        assert(s.drop_last() =~= Seq::<u8>::empty());
        assert(decimal_number(s.drop_last()) == 0);
    } else {
        lemma_decimal_digits_number(n / 10);
        let head = decimal_digits(n / 10);
        let s = decimal_digits(n);
        assert(s.drop_last() =~= head);
        assert(s.last() == (48 + n % 10) as u8);
    }
}

/// Reading the digits of any `u64` gives that number back.
pub proof fn lemma_decimal_round_trip(n: u64)
    ensures
        parsed_decimal(decimal_digits(n as nat)) == Some(n),
{
    lemma_decimal_digits_number(n as nat);
    let s = decimal_digits(n as nat);
    assert(is_decimal_digit(s[0]));
}

/// Reads a decimal numeral.
pub fn parse_decimal(text: &[u8]) -> (r: Option<u64>)
    ensures
        r == parsed_decimal(text@),
{
    let n = text.len();
    let start: usize = if n > 0 && text[0] == PLUS {
        1
    } else {
        0
    };
    if start == n {
        return None;
    }
    let ghost d = unsigned_part(text@);
    assert(d =~= text@.skip(start as int));
    let mut acc: u64 = 0;
    let mut i: usize = start;
    assert(d.take(0) =~= Seq::<u8>::empty());
    while i < n
        invariant
            start <= i <= n,
            n == text@.len(),
            d == text@.skip(start as int),
            d == unsigned_part(text@),
            all_decimal(d.take(i - start)),
            acc == decimal_number(d.take(i - start)),
        decreases n - i,
    {
        let b = text[i];
        assert(d[i - start] == b);
        if b < ZERO || b > 57 {
            return None;
        }
        let digit: u64 = (b - ZERO) as u64;
        assert(d.take(i - start + 1).drop_last() =~= d.take(i - start));
        if acc > (u64::MAX - digit) / 10 {
            proof {
                lemma_decimal_prefix_le(d, i - start + 1);
            }
            return None;
        }
        acc = acc * 10 + digit;
        i += 1;
    }
    assert(d.take(n - start) =~= d);
    Some(acc)
}

/// Writes `n` in decimal digits.
pub fn decimal_bytes(n: u64) -> (r: Vec<u8>)
    ensures
        r@ == decimal_digits(n as nat),
    decreases n,
{
    if n < 10 {
        let mut v: Vec<u8> = Vec::new();
        v.push(ZERO + n as u8);
        assert(v@ =~= decimal_digits(n as nat));
        v
    } else {
        let mut v = decimal_bytes(n / 10);
        v.push(ZERO + (n % 10) as u8);
        v
    }
}

/// The one-character text of a decimal digit.
fn digit_text(d: u8) -> (r: &'static str)
    requires
        d < 10,
    ensures
        r@ == seq![(48 + d) as u8 as char],
{
    proof {
        reveal_strlit("0");
        reveal_strlit("1");
        reveal_strlit("2");
        reveal_strlit("3");
        reveal_strlit("4");
        reveal_strlit("5");
        reveal_strlit("6");
        reveal_strlit("7");
        reveal_strlit("8");
        reveal_strlit("9");
    }
    let r = match d {
        0 => "0",
        1 => "1",
        2 => "2",
        3 => "3",
        4 => "4",
        5 => "5",
        6 => "6",
        7 => "7",
        8 => "8",
        _ => "9",
    };
    assert(r@ =~= seq![(48 + d) as u8 as char]);
    r
}

/// Writes `n` in decimal digits, as text.
pub fn decimal_string(n: u64) -> (r: String)
    ensures
        r@ == ascii_text(decimal_digits(n as nat)),
    decreases n,
{
    if n < 10 {
        let r = String::from_str(digit_text(n as u8));
        assert(r@ =~= ascii_text(decimal_digits(n as nat)));
        r
    } else {
        let head = decimal_string(n / 10);
        let r = head.concat(digit_text((n % 10) as u8));
        assert(r@ =~= ascii_text(decimal_digits(n as nat)));
        r
    }
}

} // verus!
