//! The record of the previously focused window, as it is kept in the
//! session's file: one line of decimal text.

use crate::numeral::{
    all_decimal, decimal_bytes, decimal_digits, is_decimal_digit, lemma_decimal_digits_number,
    lemma_decimal_round_trip, parse_decimal, parsed_decimal, unsigned_part,
};
use crate::window::Window;
use vstd::prelude::*;
use vstd::slice::slice_subrange;

verus! {

/// The byte that ends a line.
pub const NEWLINE: u8 = 10;

/// The byte that may stand before the end of a line.
pub const CARRIAGE_RETURN: u8 = 13;

/// Where the first line of `content` ends: at its first newline, or at its
/// end where it has none.
pub open spec fn line_end(content: Seq<u8>) -> int
    decreases content.len(),
{
    if content.len() == 0 || content[0] == 10 {
        0
    } else {
        1 + line_end(content.skip(1))
    }
}

/// The first line of `content`, without the newline that ends it and
/// without a carriage return before that newline.
pub open spec fn first_line(content: Seq<u8>) -> Seq<u8> {
    let k = line_end(content);
    let line = content.take(k);
    if k < content.len() && k > 0 && content[k - 1] == 13 {
        line.drop_last()
    } else {
        line
    }
}

/// The window id that the file's content records, if any: `None` stands for
/// a file that is missing. The first line counts, read as a decimal numeral.
pub open spec fn stored_previous(content: Option<Seq<u8>>) -> Option<u64> {
    match content {
        Some(c) => parsed_decimal(first_line(c)),
        None => None,
    }
}

/// The content that records the window `id`: its decimal digits and
/// nothing more.
pub open spec fn record_of(id: u64) -> Seq<u8> {
    decimal_digits(id as nat)
}

/// The first line ends at `k` where no byte before `k` is a newline, and
/// the content ends there or has a newline there.
pub proof fn lemma_line_end(content: Seq<u8>, k: int)
    requires
        0 <= k <= content.len(),
        forall|j: int| 0 <= j < k ==> content[j] != 10,
        k == content.len() || content[k] == 10,
    ensures
        line_end(content) == k,
    decreases k,
{
    if k > 0 {
        let rest = content.skip(1);
        assert forall|j: int| 0 <= j < k - 1 implies rest[j] != 10 by {
            assert(rest[j] == content[j + 1]);
        }
        lemma_line_end(rest, k - 1);
    }
}

/// What is written for a window is read back as that window, whatever its
/// id.
pub proof fn lemma_store_round_trip(id: u64)
    ensures
        stored_previous(Some(record_of(id))) == Some(id),
{
    let digits = record_of(id);
    lemma_decimal_digits_number(id as nat);
    lemma_decimal_round_trip(id);
    assert forall|j: int| 0 <= j < digits.len() implies digits[j] != 10 by {
        assert(is_decimal_digit(digits[j]));
    }
    lemma_line_end(digits, digits.len() as int);
    assert(digits.take(digits.len() as int) =~= digits);
}

/// A file that is missing, is empty, or begins with an empty line records
/// nothing.
pub proof fn lemma_nothing_stored(content: Seq<u8>)
    requires
        content.len() == 0 || content[0] == 10,
    ensures
        stored_previous(None) is None,
        stored_previous(Some(content)) is None,
{
    assert(first_line(content) =~= Seq::<u8>::empty());
}

/// A first line that holds anything but decimal digits behind its optional
/// `+` records nothing.
pub proof fn lemma_non_numeric_stored(content: Seq<u8>, i: int)
    requires
        0 <= i < first_line(content).len(),
        !is_decimal_digit(first_line(content)[i]),
        i > 0 || first_line(content)[0] != 43,
    ensures
        stored_previous(Some(content)) is None,
{
    let line = first_line(content);
    let d = unsigned_part(line);
    if line[0] == 43 {
        assert(d[i - 1] == line[i]);
    } else {
        assert(d[i] == line[i]);
    }
    assert(!all_decimal(d));
}

/// Reads the previously focused window from the content of the session's
/// file; `None` stands for a file that is missing.
pub fn read(content: Option<&[u8]>) -> (r: Option<Window>)
    ensures
        r == stored_previous(
            match content {
                Some(c) => Some(c@),
                None => None,
            },
        ),
{
    let bytes = match content {
        Some(c) => c,
        None => {
            return None;
        },
    };
    let n = bytes.len();
    let mut k: usize = 0;
    while k < n && bytes[k] != NEWLINE
        invariant
            k <= n,
            n == bytes@.len(),
            forall|j: int| 0 <= j < k ==> bytes@[j] != 10,
        decreases n - k,
    {
        k += 1;
    }
    proof {
        lemma_line_end(bytes@, k as int);
    }
    let end: usize = if k < n && k > 0 && bytes[k - 1] == CARRIAGE_RETURN {
        k - 1
    } else {
        k
    };
    let line = slice_subrange(bytes, 0, end);
    assert(line@ =~= first_line(bytes@));
    parse_decimal(line)
}

/// The content that replaces the session's file to record the window `id`.
pub fn write(id: Window) -> (r: Vec<u8>)
    ensures
        r@ == record_of(id),
        stored_previous(Some(r@)) == Some(id),
{
    proof {
        lemma_store_round_trip(id);
    }
    decimal_bytes(id)
}

} // verus!
