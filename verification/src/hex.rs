//! Window ids in hexadecimal text, as the compositor reports and accepts them.

use vstd::prelude::*;
use vstd::string::StrSliceExecFns;
use vstd::string::StringExecFns;
use vstd::utf8::is_ascii_chars;

verus! {

/// The number that the hexadecimal digit `c` stands for, in either case.
pub open spec fn hex_digit_value(c: char) -> Option<nat> {
    if '0' <= c <= '9' {
        Some((c as int - 48) as nat)
    } else if 'a' <= c <= 'f' {
        Some((c as int - 87) as nat)
    } else if 'A' <= c <= 'F' {
        Some((c as int - 55) as nat)
    } else {
        None
    }
}

/// Whether every character of `s` is a hexadecimal digit.
pub open spec fn all_hex(s: Seq<char>) -> bool {
    forall|i: int| 0 <= i < s.len() ==> (#[trigger] hex_digit_value(s[i])) is Some
}

/// The number that the hexadecimal digits `s` write, most significant first.
pub open spec fn hex_number(s: Seq<char>) -> nat
    decreases s.len(),
{
    if s.len() == 0 {
        0
    } else {
        hex_number(s.drop_last()) * 16 + match hex_digit_value(s.last()) {
            Some(v) => v,
            None => 0,
        }
    }
}

/// Whether `c` is an ASCII character.
pub open spec fn is_ascii_char(c: char) -> bool {
    '\0' <= c <= '\u{7f}'
}

/// Whether `s` begins with the two characters `0x`.
pub open spec fn has_hex_prefix(s: Seq<char>) -> bool {
    s.len() >= 2 && s[0] == '0' && s[1] == 'x'
}

/// `s` without every `0x` that leads it, however often it is repeated.
pub open spec fn without_hex_prefixes(s: Seq<char>) -> Seq<char>
    decreases s.len(),
{
    if has_hex_prefix(s) {
        without_hex_prefixes(s.skip(2))
    } else {
        s
    }
}

/// `s` without the one `+` that may lead it.
pub open spec fn without_plus(s: Seq<char>) -> Seq<char> {
    if s.len() > 0 && s[0] == '+' {
        s.skip(1)
    } else {
        s
    }
}

/// The id that `s` reads as: any leading `0x`, an optional `+`, then one or
/// more hexadecimal digits that write a number no greater than `u64::MAX`.
/// Anything else reads as nothing.
pub open spec fn parsed_hex(s: Seq<char>) -> Option<u64> {
    let d = without_plus(without_hex_prefixes(s));
    if d.len() > 0 && all_hex(d) && hex_number(d) <= u64::MAX {
        Some(hex_number(d) as u64)
    } else {
        None
    }
}

/// The lower-case hexadecimal digit for `v`.
pub open spec fn hex_digit_char(v: nat) -> char {
    if v < 10 {
        (48 + v) as u8 as char
    } else {
        (87 + v) as u8 as char
    }
}

/// The lower-case hexadecimal digits that write `n`, without leading zeros.
pub open spec fn hex_digits(n: nat) -> Seq<char>
    decreases n,
{
    if n < 16 {
        seq![hex_digit_char(n)]
    } else {
        hex_digits(n / 16).push(hex_digit_char(n % 16))
    }
}

/// The text by which the compositor is told of the window `id`.
pub open spec fn hex_address(id: u64) -> Seq<char> {
    seq!['0', 'x'] + hex_digits(id as nat)
}

/// A numeral's leading digits never write more than the whole numeral.
pub proof fn lemma_hex_prefix_le(s: Seq<char>, k: int)
    requires
        0 <= k <= s.len(),
    ensures
        hex_number(s.take(k)) <= hex_number(s),
    decreases s.len(),
{
    if k == s.len() {
        assert(s.take(k) =~= s);
    } else {
        assert(s.drop_last().take(k) =~= s.take(k));
        lemma_hex_prefix_le(s.drop_last(), k);
    }
}

/// Stripping the prefixes leaves an end of the text, and drops only the
/// characters `0` and `x`.
pub proof fn lemma_prefixes_dropped(s: Seq<char>) -> (k: int)
    ensures
        0 <= k <= s.len(),
        without_hex_prefixes(s) == s.skip(k),
        !has_hex_prefix(s.skip(k)),
        forall|j: int| 0 <= j < k ==> s[j] == '0' || s[j] == 'x',
    decreases s.len(),
{
    if has_hex_prefix(s) {
        let k = lemma_prefixes_dropped(s.skip(2));
        assert(s.skip(2).skip(k) =~= s.skip(k + 2));
        assert forall|j: int| 0 <= j < k + 2 implies s[j] == '0' || s[j] == 'x' by {
            if j >= 2 {
                assert(s.skip(2)[j - 2] == s[j]);
            }
        }
        k + 2
    } else {
        assert(s.skip(0) =~= s);
        0
    }
}

/// Text that holds a character outside ASCII reads as no id.
pub proof fn lemma_non_ascii_reads_none(s: Seq<char>)
    requires
        !is_ascii_chars(s),
    ensures
        parsed_hex(s) is None,
{
    let i = choose|i: int| 0 <= i < s.len() && !(#[trigger] is_ascii_char(s[i]));
    assert(0 <= i < s.len() && !is_ascii_char(s[i])) by {
        if forall|j: int| 0 <= j < s.len() ==> #[trigger] is_ascii_char(s[j]) {
            assert forall|j: int| 0 <= j < s.len() implies '\0' <= #[trigger] s[j] <= '\u{7f}' by {
                assert(is_ascii_char(s[j]));
            }
            assert(is_ascii_chars(s));
        }
    }
    let k = lemma_prefixes_dropped(s);
    let t = without_hex_prefixes(s);
    assert(i >= k);
    assert(t[i - k] == s[i]);
    let d = without_plus(t);
    if t[0] == '+' {
        assert(i - k >= 1);
        assert(d[i - k - 1] == s[i]);
        assert(hex_digit_value(d[i - k - 1]) is None);
    } else {
        assert(d[i - k] == s[i]);
        assert(hex_digit_value(d[i - k]) is None);
    }
}

/// The digits of a number are hexadecimal digits, write that number, and
/// begin with a zero only where the number is zero.
pub proof fn lemma_hex_digits_number(n: nat)
    ensures
        hex_digits(n).len() > 0,
        all_hex(hex_digits(n)),
        hex_number(hex_digits(n)) == n,
        n < 16 ==> hex_digits(n).len() == 1,
        n > 0 ==> hex_digits(n)[0] != '0',
    decreases n,
{
    let s = hex_digits(n);
    if n < 16 {
        assert(s.drop_last() =~= Seq::<char>::empty());
        assert(hex_number(s.drop_last()) == 0);
        assert(hex_digit_value(hex_digit_char(n)) == Some(n));
    } else {
        lemma_hex_digits_number(n / 16);
        let head = hex_digits(n / 16);
        assert(s.drop_last() =~= head);
        assert(s.last() == hex_digit_char(n % 16));
        assert(hex_digit_value(hex_digit_char(n % 16)) == Some(n % 16));
        assert forall|i: int| 0 <= i < s.len() implies (#[trigger] hex_digit_value(s[i])) is Some by {
            if i < head.len() {
                assert(s[i] == head[i]);
            }
        }
        assert(s[0] == head[0]);
    }
}

/// Reading the address of any window id gives that id back.
pub proof fn lemma_hex_address_round_trip(id: u64)
    ensures
        parsed_hex(hex_address(id)) == Some(id),
        parsed_hex(hex_digits(id as nat)) == Some(id),
{
    lemma_hex_digits_number(id as nat);
    let digits = hex_digits(id as nat);
    let s = hex_address(id);
    assert(hex_digit_value(digits[0]) is Some);
    assert(!has_hex_prefix(digits));
    assert(has_hex_prefix(s));
    assert(s.skip(2) =~= digits);
    assert(without_hex_prefixes(s) == digits);
    assert(without_plus(digits) == digits);
}

/// The number of an ASCII hexadecimal digit, if `b` is one.
fn hex_digit(b: u8) -> (r: Option<u8>)
    requires
        b < 128,
    ensures
        r matches Some(v) ==> hex_digit_value(b as char) == Some(v as nat) && v < 16,
        r is None ==> hex_digit_value(b as char) is None,
{
    if 48 <= b && b <= 57 {
        Some(b - 48)
    } else if 97 <= b && b <= 102 {
        Some(b - 87)
    } else if 65 <= b && b <= 70 {
        Some(b - 55)
    } else {
        None
    }
}

/// The byte of the ASCII character at `i`.
fn ascii_at(text: &str, i: usize) -> (b: u8)
    requires
        text.is_ascii(),
        i < text@.len(),
    ensures
        b < 128,
        b as char == text@[i as int],
{
    let b = text.get_ascii(i);
    assert('\0' <= text@[i as int] <= '\u{7f}');
    b
}

/// Whether the text from `i` on begins with `0x`.
fn prefix_at(text: &str, n: usize, i: usize) -> (r: bool)
    requires
        text.is_ascii(),
        n == text@.len(),
        i <= n,
    ensures
        r == has_hex_prefix(text@.skip(i as int)),
{
    if n - i < 2 {
        return false;
    }
    let b0 = ascii_at(text, i);
    let b1 = ascii_at(text, i + 1);
    assert(text@.skip(i as int)[0] == text@[i as int]);
    assert(text@.skip(i as int)[1] == text@[i + 1]);
    b0 == 48 && b1 == 120
}

/// Reads a window id from the compositor's hexadecimal text.
pub fn parse_hex_to_u64(hex_str: &str) -> (r: Option<u64>)
    ensures
        r == parsed_hex(hex_str@),
{
    if !hex_str.is_ascii() {
        proof {
            lemma_non_ascii_reads_none(hex_str@);
        }
        return None;
    }
    let n = hex_str.unicode_len();
    let ghost s = hex_str@;
    let mut i: usize = 0;
    assert(s.skip(0) =~= s);
    while prefix_at(hex_str, n, i)
        invariant
            i <= n,
            n == s.len(),
            s == hex_str@,
            hex_str.is_ascii(),
            without_hex_prefixes(s) == without_hex_prefixes(s.skip(i as int)),
        decreases n - i,
    {
        assert(s.skip(i as int).skip(2) =~= s.skip(i + 2));
        i += 2;
    }
    let ghost t = s.skip(i as int);
    assert(without_hex_prefixes(s) == t);
    if i < n && ascii_at(hex_str, i) == 43 {
        assert(t[0] == '+');
        assert(t.skip(1) =~= s.skip(i + 1));
        i += 1;
    } else {
        assert(i < n ==> t[0] == s[i as int]);
    }
    let ghost d = without_plus(t);
    assert(d == s.skip(i as int));
    if i == n {
        return None;
    }
    let start = i;
    let mut acc: u64 = 0;
    assert(d.take(0) =~= Seq::<char>::empty());
    while i < n
        invariant
            start <= i <= n,
            start < n,
            n == s.len(),
            s == hex_str@,
            hex_str.is_ascii(),
            d == s.skip(start as int),
            d == without_plus(without_hex_prefixes(s)),
            all_hex(d.take(i - start)),
            acc == hex_number(d.take(i - start)),
        decreases n - i,
    {
        let b = ascii_at(hex_str, i);
        assert(d[i - start] == s[i as int]);
        assert(d.take(i - start + 1).drop_last() =~= d.take(i - start));
        match hex_digit(b) {
            None => {
                return None;
            },
            Some(v) => {
                let digit: u64 = v as u64;
                if acc > (u64::MAX - digit) / 16 {
                    proof {
                        lemma_hex_prefix_le(d, i - start + 1);
                    }
                    return None;
                }
                acc = acc * 16 + digit;
            },
        }
        i += 1;
    }
    assert(d.take(n - start) =~= d);
    Some(acc)
}

/// The one-character text of a hexadecimal digit, in lower case.
fn hex_digit_text(v: u8) -> (r: &'static str)
    requires
        v < 16,
    ensures
        r@ == seq![hex_digit_char(v as nat)],
{
    proof {
        reveal_strlit("0");
        reveal_strlit("1");
        reveal_strlit("2");
        reveal_strlit("3");
        reveal_strlit("4");
        reveal_strlit("5");
        reveal_strlit("6");
        reveal_strlit("7");
        reveal_strlit("8");
        reveal_strlit("9");
        reveal_strlit("a");
        reveal_strlit("b");
        reveal_strlit("c");
        reveal_strlit("d");
        reveal_strlit("e");
        reveal_strlit("f");
    }
    let r = match v {
        0 => "0",
        1 => "1",
        2 => "2",
        3 => "3",
        4 => "4",
        5 => "5",
        6 => "6",
        7 => "7",
        8 => "8",
        9 => "9",
        10 => "a",
        11 => "b",
        12 => "c",
        13 => "d",
        14 => "e",
        _ => "f",
    };
    assert(r@ =~= seq![hex_digit_char(v as nat)]);
    r
}

/// Writes `n` in lower-case hexadecimal digits.
pub fn hex_string(n: u64) -> (r: String)
    ensures
        r@ == hex_digits(n as nat),
    decreases n,
{
    if n < 16 {
        let r = String::from_str(hex_digit_text(n as u8));
        assert(r@ =~= hex_digits(n as nat));
        r
    } else {
        let head = hex_string(n / 16);
        let r = head.concat(hex_digit_text((n % 16) as u8));
        assert(r@ =~= hex_digits(n as nat));
        r
    }
}

} // verus!
