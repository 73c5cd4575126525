use hlwinter::dispatch::{dispatch, initial_state, Action, Event, Reason, State, KEY_ESCAPE};
use hlwinter::hints::{assign, hint_letter};
use hlwinter::layout::make_vbox;
use hlwinter::store;
use hlwinter::window::{filter, BlacklistedItem, BlacklistedItems, WindowRecord};
use std::collections::HashMap;

fn windows() -> Vec<WindowRecord> {
    vec![
        WindowRecord { id: 1, desktop_id: 0, title: String::from("Term"), class: String::from("Alacritty") },
        WindowRecord { id: 2, desktop_id: 1, title: String::from("Web"), class: String::from("Firefox") },
    ]
}

#[test]
fn scoped_selection_focuses_the_window() {
    let blacklist = BlacklistedItems { item: Vec::new() };
    let kept = filter(&windows(), Some(0), &blacklist);
    assert_eq!(kept.len(), 1);
    assert_eq!(kept[0].id, 1);
    let hints = assign(&kept);
    let mut expected = HashMap::new();
    expected.insert(0u8, 1u64);
    assert_eq!(hints, expected);
    let (rows, row_hints) = make_vbox(&windows(), Some(0), 20, &blacklist, 2);
    assert_eq!(rows.len(), 1);
    assert_eq!(rows[0].label, "0: Term");
    assert_eq!(row_hints, expected);
    let step = dispatch(initial_state(), Event::Key(hint_letter(0) as u32), &hints, 2, None);
    assert_eq!(step.action, Action::FocusWindow(1));
    assert_eq!(step.state, State::Terminated(Reason::Selected(1)));
    assert!(step.consumed);
}

#[test]
fn blacklisted_class_is_hidden_on_all_desktops() {
    let blacklist = BlacklistedItems { item: vec![BlacklistedItem { class: String::from("Firefox") }] };
    let kept = filter(&windows(), None, &blacklist);
    assert_eq!(kept.len(), 1);
    assert_eq!(kept[0].id, 1);
    for scope in [Some(0), Some(1), Some(2)] {
        assert!(filter(&windows(), scope, &blacklist).iter().all(|w| w.id == 1));
    }
}

#[test]
fn escape_persists_for_the_next_session() {
    let hints: HashMap<u8, u64> = HashMap::new();
    let step = dispatch(initial_state(), Event::Key(KEY_ESCAPE), &hints, 42, None);
    assert_eq!(step.state, State::Terminated(Reason::Cancelled));
    let file = match step.action {
        Action::PersistPrevious(id) => store::write(id),
        other => panic!("{:?}", other),
    };
    assert_eq!(file, b"42".to_vec());
    assert_eq!(store::read(Some(&file)), Some(42));
}
