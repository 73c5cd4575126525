//! The key-press state machine of a session.

use crate::hints::{code_of_key, hint_code};
use crate::window::Window;
use std::collections::HashMap;
use vstd::prelude::*;

verus! {

/// The key value of Escape.
pub const KEY_ESCAPE: u32 = 0xff1b;

/// The key value of Space.
pub const KEY_SPACE: u32 = 0x20;

/// The key value of the digit `1`.
pub const KEY_ONE: u32 = 49;

/// The key value of the digit `9`.
pub const KEY_NINE: u32 = 57;

/// Why a session ended.
#[derive(Clone, Copy, Debug, PartialEq, Eq, Structural)]
pub enum Reason {
    Cancelled,
    ToggledPrevious,
    Selected(Window),
    Ignored,
}

/// Where a session stands.
#[derive(Clone, Copy, Debug, PartialEq, Eq, Structural)]
pub enum State {
    AwaitingSelection,
    Terminated(Reason),
}

/// What the presentation layer reports.
#[derive(Clone, Copy, Debug, PartialEq, Eq, Structural)]
pub enum Event {
    /// A key was pressed; the value is the key's.
    Key(u32),
    /// The session's window lost the input focus.
    FocusLost,
}

/// What the caller is to do after an event.
#[derive(Clone, Copy, Debug, PartialEq, Eq, Structural)]
pub enum Action {
    /// Nothing.
    Nothing,
    /// Record this window as the previous one.
    PersistPrevious(Window),
    /// Report the recorded previous window, without going to it.
    ReportPrevious(Option<Window>),
    /// Ask the compositor to focus this window.
    FocusWindow(Window),
}

/// The outcome of one event.
#[derive(Clone, Copy, Debug, PartialEq, Eq, Structural)]
pub struct Step {
    /// The state after the event.
    pub state: State,
    /// What the caller is to do.
    pub action: Action,
    /// Whether the event is used up, so that nobody else acts on it.
    pub consumed: bool,
}

/// The outcome of the key `key` while a selection is awaited.
pub open spec fn key_step(key: u32, hints: Map<u8, u64>, active: u64, previous: Option<u64>) -> Step {
    if key == KEY_ESCAPE {
        Step {
            state: State::Terminated(Reason::Cancelled),
            action: Action::PersistPrevious(active),
            consumed: true,
        }
    } else if key == KEY_SPACE {
        Step {
            state: State::Terminated(Reason::ToggledPrevious),
            action: Action::ReportPrevious(previous),
            consumed: true,
        }
    } else if KEY_ONE <= key <= KEY_NINE {
        Step { state: State::Terminated(Reason::Ignored), action: Action::Nothing, consumed: true }
    } else {
        match code_of_key(key) {
            Some(code) if hints.contains_key(code) => Step {
                state: State::Terminated(Reason::Selected(hints[code])),
                action: Action::FocusWindow(hints[code]),
                consumed: true,
            },
            _ => Step { state: State::AwaitingSelection, action: Action::Nothing, consumed: false },
        }
    }
}

/// The outcome of `event` in `state`. A session that has ended stays as it
/// is. Losing the focus ends the session as cancelled, with nothing to
/// record.
pub open spec fn next_step(
    state: State,
    event: Event,
    hints: Map<u8, u64>,
    active: u64,
    previous: Option<u64>,
) -> Step {
    match state {
        State::Terminated(_) => Step { state, action: Action::Nothing, consumed: false },
        State::AwaitingSelection => match event {
            Event::FocusLost => Step {
                state: State::Terminated(Reason::Cancelled),
                action: Action::Nothing,
                consumed: true,
            },
            Event::Key(key) => key_step(key, hints, active, previous),
        },
    }
}

/// Only Escape records a previous window, and what it records is the
/// window that was active when the session started.
pub proof fn lemma_only_escape_persists(
    state: State,
    event: Event,
    hints: Map<u8, u64>,
    active: u64,
    previous: Option<u64>,
)
    ensures
        next_step(state, event, hints, active, previous).action is PersistPrevious <==> state
            == State::AwaitingSelection && event == Event::Key(KEY_ESCAPE),
        next_step(state, event, hints, active, previous).action is PersistPrevious ==> next_step(
            state,
            event,
            hints,
            active,
            previous,
        ).action == Action::PersistPrevious(active),
{
}

/// A window is focused exactly where an awaited selection ends as selected,
/// and the window is the one that the pressed letter's code stands for.
pub proof fn lemma_selection(
    state: State,
    event: Event,
    hints: Map<u8, u64>,
    active: u64,
    previous: Option<u64>,
    w: u64,
)
    ensures
        next_step(state, event, hints, active, previous).action == Action::FocusWindow(w) <==> state
            == State::AwaitingSelection && next_step(state, event, hints, active, previous).state
            == State::Terminated(Reason::Selected(w)),
        next_step(state, event, hints, active, previous).action == Action::FocusWindow(w) ==> exists|
            code: u8,
        |
            code < 26 && event == Event::Key((97 + code) as u32) && #[trigger] hints.contains_key(code)
                && hints[code] == w,
{
    let step = next_step(state, event, hints, active, previous);
    if step.action == Action::FocusWindow(w) {
        let key = event->Key_0;
        let code = code_of_key(key)->Some_0;
        assert(hints.contains_key(code));
        assert(key == (97 + code) as u32);
    }
}

/// A session that has ended stays ended, whatever comes, and asks for
/// nothing more.
pub proof fn lemma_terminated_stays(
    reason: Reason,
    event: Event,
    hints: Map<u8, u64>,
    active: u64,
    previous: Option<u64>,
)
    ensures
        next_step(State::Terminated(reason), event, hints, active, previous) == (Step {
            state: State::Terminated(reason),
            action: Action::Nothing,
            consumed: false,
        }),
{
}

/// The state of a session that has just begun.
pub fn initial_state() -> (r: State)
    ensures
        r == State::AwaitingSelection,
{
    State::AwaitingSelection
}

/// Decides what `event` leads to in `state`: the next state, what the
/// caller is to do, and whether the event is used up. `hints` are the codes
/// on screen, `active` is the window that was active when the session
/// started, `previous` the window recorded by an earlier session.
pub fn dispatch(
    state: State,
    event: Event,
    hints: &HashMap<u8, Window>,
    active: Window,
    previous: Option<Window>,
) -> (r: Step)
    ensures
        r == next_step(state, event, hints@, active, previous),
{
    match state {
        State::Terminated(_) => Step { state, action: Action::Nothing, consumed: false },
        State::AwaitingSelection => match event {
            Event::FocusLost => Step {
                state: State::Terminated(Reason::Cancelled),
                action: Action::Nothing,
                consumed: true,
            },
            Event::Key(key) => {
                if key == KEY_ESCAPE {
                    Step {
                        state: State::Terminated(Reason::Cancelled),
                        action: Action::PersistPrevious(active),
                        consumed: true,
                    }
                } else if key == KEY_SPACE {
                    Step {
                        state: State::Terminated(Reason::ToggledPrevious),
                        action: Action::ReportPrevious(previous),
                        consumed: true,
                    }
                } else if KEY_ONE <= key && key <= KEY_NINE {
                    Step {
                        state: State::Terminated(Reason::Ignored),
                        action: Action::Nothing,
                        consumed: true,
                    }
                } else {
                    let target = match hint_code(key) {
                        Some(code) => match hints.get(&code) {
                            Some(w) => Some(*w),
                            None => None,
                        },
                        None => None,
                    };
                    match target {
                        Some(w) => Step {
                            state: State::Terminated(Reason::Selected(w)),
                            action: Action::FocusWindow(w),
                            consumed: true,
                        },
                        None => Step {
                            state: State::AwaitingSelection,
                            action: Action::Nothing,
                            consumed: false,
                        },
                    }
                }
            },
        },
    }
}

} // verus!
