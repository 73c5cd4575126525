use hlwinter::dispatch::{
    dispatch, initial_state, Action, Event, Reason, State, Step, KEY_ESCAPE, KEY_SPACE,
};
use std::collections::HashMap;

fn hints() -> HashMap<u8, u64> {
    let mut m = HashMap::new();
    m.insert(0u8, 11u64);
    m.insert(1u8, 22u64);
    m.insert(2u8, 33u64);
    m
}

fn key(k: u32) -> Step {
    dispatch(State::AwaitingSelection, Event::Key(k), &hints(), 42, Some(7))
}

const STAY: Step =
    Step { state: State::AwaitingSelection, action: Action::Nothing, consumed: false };

#[test]
fn session_begins_awaiting() {
    assert_eq!(initial_state(), State::AwaitingSelection);
}

#[test]
fn escape_persists_the_startup_window() {
    assert_eq!(KEY_ESCAPE, 0xff1b);
    assert_eq!(
        key(KEY_ESCAPE),
        Step {
            state: State::Terminated(Reason::Cancelled),
            action: Action::PersistPrevious(42),
            consumed: true
        }
    );
    // not the recorded one, and not a hovered one
    let step = dispatch(State::AwaitingSelection, Event::Key(KEY_ESCAPE), &hints(), 5, None);
    assert_eq!(step.action, Action::PersistPrevious(5));
}

#[test]
fn space_reports_without_jumping() {
    assert_eq!(KEY_SPACE, 32);
    assert_eq!(
        key(KEY_SPACE),
        Step {
            state: State::Terminated(Reason::ToggledPrevious),
            action: Action::ReportPrevious(Some(7)),
            consumed: true
        }
    );
    let step = dispatch(State::AwaitingSelection, Event::Key(KEY_SPACE), &hints(), 42, None);
    assert_eq!(step.action, Action::ReportPrevious(None));
    assert_eq!(step.state, State::Terminated(Reason::ToggledPrevious));
}

#[test]
fn digits_close_without_effect() {
    for k in '1' as u32..='9' as u32 {
        assert_eq!(
            key(k),
            Step {
                state: State::Terminated(Reason::Ignored),
                action: Action::Nothing,
                consumed: true
            }
        );
    }
    assert_eq!(key('0' as u32), STAY);
    assert_eq!(key(':' as u32), STAY);
}

#[test]
fn letter_with_a_code_selects() {
    assert_eq!(
        key('a' as u32),
        Step {
            state: State::Terminated(Reason::Selected(11)),
            action: Action::FocusWindow(11),
            consumed: true
        }
    );
    assert_eq!(key('c' as u32).action, Action::FocusWindow(33));
    assert_eq!(key('c' as u32).state, State::Terminated(Reason::Selected(33)));
}

#[test]
fn other_keys_change_nothing() {
    assert_eq!(key('d' as u32), STAY);
    assert_eq!(key('z' as u32), STAY);
    assert_eq!(key('A' as u32), STAY);
    assert_eq!(key('{' as u32), STAY);
    assert_eq!(key('`' as u32), STAY);
    assert_eq!(key(0), STAY);
    assert_eq!(key(0xff0d), STAY);
    assert_eq!(key(u32::MAX), STAY);
    assert_eq!(key(97 + 256), STAY);
}

#[test]
fn focus_loss_ends_without_persisting() {
    let step = dispatch(State::AwaitingSelection, Event::FocusLost, &hints(), 42, Some(7));
    assert_eq!(
        step,
        Step {
            state: State::Terminated(Reason::Cancelled),
            action: Action::Nothing,
            consumed: true
        }
    );
}

#[test]
fn ended_session_stays_ended() {
    for reason in [Reason::Cancelled, Reason::ToggledPrevious, Reason::Selected(11), Reason::Ignored] {
        for event in [
            Event::Key(KEY_ESCAPE),
            Event::Key(KEY_SPACE),
            Event::Key('a' as u32),
            Event::Key('1' as u32),
            Event::FocusLost,
        ] {
            let step = dispatch(State::Terminated(reason), event, &hints(), 42, Some(7));
            assert_eq!(
                step,
                Step { state: State::Terminated(reason), action: Action::Nothing, consumed: false }
            );
        }
    }
}

#[test]
fn no_hints_no_selection() {
    let empty: HashMap<u8, u64> = HashMap::new();
    for k in 'a' as u32..='z' as u32 {
        assert_eq!(dispatch(State::AwaitingSelection, Event::Key(k), &empty, 1, None), STAY);
    }
}
