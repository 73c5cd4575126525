//! Shortening of window titles to a bounded display width.

use vstd::prelude::*;
use vstd::string::StrSliceExecFns;
use vstd::string::StringExecFns;

verus! {

/// The separator that stands for the dropped middle of a long title.
pub open spec fn ellipsis() -> Seq<char> {
    seq!['.', '.', '.']
}

/// How many characters of each end of a long title are kept.
pub open spec fn kept_chars(max_len: nat) -> nat {
    (max_len / 8) * 4
}

/// The displayed form of `title` for the width `max_len`, both counted in
/// characters: a title shorter than `max_len` is shown whole, any other is
/// shown as its first and last `kept_chars(max_len)` characters around the
/// separator.
pub open spec fn abbreviated(title: Seq<char>, max_len: nat) -> Seq<char> {
    if title.len() < max_len {
        title
    } else {
        let k = kept_chars(max_len) as int;
        title.subrange(0, k) + ellipsis() + title.subrange(title.len() - k, title.len() as int)
    }
}

/// A long title always has room for the two ends that are kept.
pub proof fn lemma_kept_chars_fit(len: nat, max_len: nat)
    requires
        len >= max_len,
    ensures
        2 * kept_chars(max_len) <= len,
        kept_chars(max_len) <= max_len,
{
}

/// Shortens `x` for display in a column of `maxlen` characters.
pub fn abbreviate(x: String, maxlen: usize) -> (r: String)
    ensures
        r@ == abbreviated(x@, maxlen as nat),
        x@.len() < maxlen ==> r@ == x@,
        x@.len() >= maxlen ==> r@ == x@.subrange(0, kept_chars(maxlen as nat) as int) + ellipsis()
            + x@.subrange(x@.len() - kept_chars(maxlen as nat), x@.len() as int),
        x@.len() >= maxlen ==> r@.len() == 2 * kept_chars(maxlen as nat) + 3,
{
    let len: usize = x.as_str().unicode_len();
    if len < maxlen {
        return x;
    }
    let k: usize = (maxlen / 8) * 4;
    proof {
        lemma_kept_chars_fit(len as nat, maxlen as nat);
        reveal_strlit("...");
    }
    let head = x.as_str().substring_char(0, k);
    let tail = x.as_str().substring_char(len - k, len);
    let r = String::from_str(head).concat("...").concat(tail);
    assert("..."@ =~= ellipsis());
    r
}

} // verus!
