//! Hint codes: the one-letter mnemonics by which a window is chosen.

use crate::window::{window_ids, Window, WindowRecord};
use std::collections::HashMap;
use vstd::prelude::*;

verus! {

/// How many hint codes there are: one for each letter from `a` to `z`.
pub const HINT_LIMIT: u8 = 26;

/// The key value of the letter `a`, which stands for the code 0.
pub const KEY_A: u32 = 97;

/// How many of `n` windows receive a code.
pub open spec fn hint_count(n: nat) -> nat {
    if n < 26 {
        n
    } else {
        26
    }
}

/// The codes of the windows with the ids `ids`: the window at position `i`
/// has the code `i`, as far as the codes reach.
pub open spec fn hint_codes(ids: Seq<u64>) -> Map<u8, u64> {
    Map::new(|c: u8| (c as nat) < hint_count(ids.len()), |c: u8| ids[c as int])
}

/// The codes below `k`.
pub open spec fn codes_below(k: nat) -> Set<u8> {
    Set::new(|c: u8| (c as nat) < k)
}

/// There are `k` codes below `k`.
pub proof fn lemma_codes_below(k: nat)
    requires
        k <= 256,
    ensures
        codes_below(k).finite(),
        codes_below(k).len() == k,
    decreases k,
{
    if k == 0 {
        assert(codes_below(k) =~= Set::<u8>::empty());
    } else {
        lemma_codes_below((k - 1) as nat);
        assert(codes_below(k) =~= codes_below((k - 1) as nat).insert((k - 1) as u8));
    }
}

/// The codes are dense and capped: of `n` windows the first 26, or all `n`
/// where they are fewer, have the codes from 0 on in their order, each code
/// once, and no other code is in use.
pub proof fn lemma_hint_codes_dense(ids: Seq<u64>)
    ensures
        hint_codes(ids).dom().finite(),
        hint_codes(ids).dom().len() == hint_count(ids.len()),
        ids.len() <= 26 ==> hint_codes(ids).dom().len() == ids.len(),
        ids.len() > 26 ==> hint_codes(ids).dom().len() == 26,
        forall|c: u8|
            (c as nat) < hint_count(ids.len()) ==> #[trigger] hint_codes(ids).contains_key(c)
                && hint_codes(ids)[c] == ids[c as int],
        forall|c: u8| (c as nat) >= hint_count(ids.len()) ==> !#[trigger] hint_codes(ids).contains_key(c),
{
    lemma_codes_below(hint_count(ids.len()));
    assert(hint_codes(ids).dom() =~= codes_below(hint_count(ids.len())));
}

/// Gives the first 26 of `filtered_windows` their codes, in order from 0.
pub fn assign(filtered_windows: &Vec<WindowRecord>) -> (r: HashMap<u8, Window>)
    ensures
        r@ == hint_codes(window_ids(filtered_windows@)),
{
    let ghost ids = window_ids(filtered_windows@);
    let mut hints: HashMap<u8, Window> = HashMap::new();
    let mut j: u8 = 0;
    assert(hints@ =~= hint_codes(ids.take(0)));
    while j < HINT_LIMIT && (j as usize) < filtered_windows.len()
        invariant
            j <= 26,
            j <= filtered_windows.len(),
            ids == window_ids(filtered_windows@),
            hints@ == hint_codes(ids.take(j as int)),
        decreases 26 - j,
    {
        let ghost before = hints@;
        hints.insert(j, filtered_windows[j as usize].id);
        assert(hints@ =~= hint_codes(ids.take(j + 1))) by {
            assert(hints@ == before.insert(j, ids[j as int]));
        }
        j += 1;
    }
    assert(hints@ =~= hint_codes(ids));
    hints
}

/// The code that the key value `key` stands for: the letters from `a` to
/// `z` stand for the codes from 0 to 25.
pub open spec fn code_of_key(key: u32) -> Option<u8> {
    if 97 <= key <= 122 {
        Some((key - 97) as u8)
    } else {
        None
    }
}

/// The key value of the letter that shows the code `code`.
pub open spec fn key_of_code(code: u8) -> u32 {
    (97 + code) as u32
}

/// The letter's key gives the code back.
pub proof fn lemma_key_round_trip(code: u8)
    requires
        code < 26,
    ensures
        code_of_key(key_of_code(code)) == Some(code),
{
}

/// The code that a key stands for, if it is a letter from `a` to `z`.
pub fn hint_code(key: u32) -> (r: Option<u8>)
    ensures
        r == code_of_key(key),
        r matches Some(c) ==> c < 26,
{
    if KEY_A <= key && key <= 122 {
        Some((key - KEY_A) as u8)
    } else {
        None
    }
}

/// The letter that shows the code `code` to the user.
pub fn hint_letter(code: u8) -> (r: char)
    requires
        code < 26,
    ensures
        r as u32 == key_of_code(code),
{
    (code + 97) as char
}

} // verus!
