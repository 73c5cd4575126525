//! The rows of the switcher: one per shown window, with what its buttons
//! say and how they are styled.

use crate::hints::{assign, hint_codes, HINT_LIMIT};
use crate::numeral::{ascii_text, decimal_digits, decimal_string};
use crate::title::{abbreviate, abbreviated};
use crate::window::{
    filter, model_ids, shown, window_ids, window_models, BlacklistedItems, Window, WindowModel,
    WindowRecord,
};
use std::collections::HashMap;
use vstd::prelude::*;
use vstd::string::StringExecFns;

verus! {

/// One row of the switcher.
#[derive(Debug)]
pub struct ButtonRow {
    /// The window that the row stands for.
    pub window: Window,
    /// The row's hint code; none beyond the last code.
    pub hint: Option<u8>,
    /// The text of the row's main button.
    pub label: String,
    /// The style class that the window's class gives the row.
    pub style_class: String,
    /// Whether the window was the active one when the session started.
    pub current: bool,
}

/// The mathematical value of a [`ButtonRow`].
pub struct RowModel {
    pub window: u64,
    pub hint: Option<u8>,
    pub label: Seq<char>,
    pub style_class: Seq<char>,
    pub current: bool,
}

impl View for ButtonRow {
    type V = RowModel;

    open spec fn view(&self) -> RowModel {
        RowModel {
            window: self.window,
            hint: self.hint,
            label: self.label@,
            style_class: self.style_class@,
            current: self.current,
        }
    }
}

/// The mathematical values of `rows`, in order.
pub open spec fn row_models(rows: Seq<ButtonRow>) -> Seq<RowModel> {
    Seq::new(rows.len(), |i: int| rows[i]@)
}

/// `text` with `to` in place of every `from`.
pub open spec fn replaced(text: Seq<char>, from: char, to: Seq<char>) -> Seq<char>
    decreases text.len(),
{
    if text.len() == 0 {
        Seq::empty()
    } else if text.last() == from {
        replaced(text.drop_last(), from, to) + to
    } else {
        replaced(text.drop_last(), from, to).push(text.last())
    }
}

/// The style class of a window of the class `class`: `wbtn_` and the class,
/// with `_` for each `.` in it.
pub open spec fn style_class_of(class: Seq<char>) -> Seq<char> {
    seq!['w', 'b', 't', 'n', '_'] + replaced(class, '.', seq!['_'])
}

/// The text of a window's main button: its desktop, a colon and a space,
/// and its title as shortened for `max_len`.
pub open spec fn label_of(w: WindowModel, max_len: nat) -> Seq<char> {
    ascii_text(decimal_digits(w.desktop_id as nat)) + seq![':', ' '] + abbreviated(w.title, max_len)
}

/// The code of the row at `position`, as far as the codes reach.
pub open spec fn hint_at(position: int) -> Option<u8> {
    if 0 <= position < 26 {
        Some(position as u8)
    } else {
        None
    }
}

/// The row of the window `w` at `position` in the shown list.
pub open spec fn row_of(w: WindowModel, position: int, max_len: nat, active: u64) -> RowModel {
    RowModel {
        window: w.id,
        hint: hint_at(position),
        label: label_of(w, max_len),
        style_class: style_class_of(w.class),
        current: w.id == active,
    }
}

/// The rows of the shown windows `wins`, in their order.
pub open spec fn rows_of(wins: Seq<WindowModel>, max_len: nat, active: u64) -> Seq<RowModel> {
    Seq::new(wins.len(), |i: int| row_of(wins[i], i, max_len, active))
}

/// The rows and the codes agree: a row has a code exactly where the codes
/// hold one for its position, and that code leads to the row's window.
pub proof fn lemma_rows_match_hints(wins: Seq<WindowModel>, max_len: nat, active: u64, i: int)
    requires
        0 <= i < wins.len(),
    ensures
        rows_of(wins, max_len, active)[i].hint matches Some(code) ==> hint_codes(
            model_ids(wins),
        ).contains_key(code) && hint_codes(model_ids(wins))[code] == rows_of(wins, max_len, active)[i].window,
        rows_of(wins, max_len, active)[i].hint is None <==> i >= 26,
{
}

/// `str::replace` with a pattern of one character: every `from` in `text`
/// gives way to `to`, and all else stays as it is.
#[verifier::external_body]
fn replace_char(text: &str, from: char, to: &str) -> (r: String)
    ensures
        r@ == replaced(text@, from, to@),
{
    text.replace(from, to)
}

/// The style class of a window of the class `class`.
pub fn style_class(class: &str) -> (r: String)
    ensures
        r@ == style_class_of(class@),
{
    proof {
        reveal_strlit("wbtn_");
        reveal_strlit("_");
    }
    let sanitized = replace_char(class, '.', "_");
    let r = String::from_str("wbtn_").concat(sanitized.as_str());
    assert("wbtn_"@ =~= seq!['w', 'b', 't', 'n', '_']);
    assert("_"@ =~= seq!['_']);
    r
}

/// The text of the main button of the window `w`.
pub fn label(w: &WindowRecord, maxlen: usize) -> (r: String)
    ensures
        r@ == label_of(w@, maxlen as nat),
{
    proof {
        reveal_strlit(": ");
    }
    let title = abbreviate(w.title.clone(), maxlen);
    let r = decimal_string(w.desktop_id as u64).concat(": ").concat(title.as_str());
    assert(": "@ =~= seq![':', ' ']);
    r
}

/// Lays out the switcher: narrows `wins` to the desktop `desktop`, where
/// there is one, and to the classes that `blacklist` does not name, and
/// gives each survivor a row and, as far as the codes reach, a hint code.
pub fn make_vbox(
    wins: &Vec<WindowRecord>,
    desktop: Option<u32>,
    maxlen: usize,
    blacklist: &BlacklistedItems,
    active: Window,
) -> (r: (Vec<ButtonRow>, HashMap<u8, Window>))
    ensures
        row_models(r.0@) == rows_of(
            shown(window_models(wins@), desktop, blacklist@),
            maxlen as nat,
            active,
        ),
        r.1@ == hint_codes(model_ids(shown(window_models(wins@), desktop, blacklist@))),
{
    let kept = filter(wins, desktop, blacklist);
    let ghost models = window_models(kept@);
    let charhints = assign(&kept);
    assert(window_ids(kept@) =~= model_ids(models));
    let mut rows: Vec<ButtonRow> = Vec::new();
    let mut j: usize = 0;
    while j < kept.len()
        invariant
            j <= kept.len(),
            models == window_models(kept@),
            rows@.len() == j,
            forall|i: int| 0 <= i < j ==> (#[trigger] rows@[i])@ == row_of(models[i], i, maxlen as nat, active),
        decreases kept.len() - j,
    {
        let w = &kept[j];
        let hint = if j < HINT_LIMIT as usize {
            Some(j as u8)
        } else {
            None
        };
        let row = ButtonRow {
            window: w.id,
            hint,
            label: label(w, maxlen),
            style_class: style_class(w.class.as_str()),
            current: w.id == active,
        };
        assert(row@ == row_of(models[j as int], j as int, maxlen as nat, active));
        rows.push(row);
        j += 1;
    }
    assert(row_models(rows@) =~= rows_of(models, maxlen as nat, active));
    (rows, charhints)
}

} // verus!
