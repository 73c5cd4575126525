use hlwinter::hints::{assign, hint_code, hint_letter};
use hlwinter::window::WindowRecord;

fn wins(n: u64) -> Vec<WindowRecord> {
    (0..n)
        .map(|i| WindowRecord {
            id: 1000 + i,
            desktop_id: 0,
            title: format!("w{}", i),
            class: String::from("C"),
        })
        .collect()
}

#[test]
fn codes_are_dense_from_zero() {
    let hints = assign(&wins(3));
    assert_eq!(hints.len(), 3);
    assert_eq!(hints.get(&0), Some(&1000));
    assert_eq!(hints.get(&1), Some(&1001));
    assert_eq!(hints.get(&2), Some(&1002));
    assert_eq!(hints.get(&3), None);
}

#[test]
fn no_windows_no_codes() {
    assert!(assign(&wins(0)).is_empty());
}

#[test]
fn exactly_twenty_six_all_coded() {
    let hints = assign(&wins(26));
    assert_eq!(hints.len(), 26);
    for c in 0u8..26 {
        assert_eq!(hints.get(&c), Some(&(1000 + c as u64)));
    }
    assert_eq!(hints.get(&26), None);
}

#[test]
fn beyond_twenty_six_are_unmapped() {
    let hints = assign(&wins(40));
    assert_eq!(hints.len(), 26);
    assert_eq!(hints.get(&25), Some(&1025));
    for c in 26u8..=255 {
        assert_eq!(hints.get(&c), None);
    }
    assert!(hints.values().all(|id| *id < 1026));
}

#[test]
fn many_windows_do_not_overflow_the_code() {
    assert_eq!(assign(&wins(300)).len(), 26);
}

#[test]
fn assign_is_repeatable() {
    let list = wins(12);
    assert_eq!(assign(&list), assign(&list));
}

#[test]
fn equal_ids_are_allowed() {
    let mut list = wins(2);
    list[1].id = list[0].id;
    let hints = assign(&list);
    assert_eq!(hints.get(&0), Some(&1000));
    assert_eq!(hints.get(&1), Some(&1000));
}

#[test]
fn letters_stand_for_codes() {
    assert_eq!(hint_code(97), Some(0));
    assert_eq!(hint_code(122), Some(25));
    assert_eq!(hint_code(96), None);
    assert_eq!(hint_code(123), None);
    assert_eq!(hint_code(65), None);
    assert_eq!(hint_code(0), None);
    assert_eq!(hint_code(u32::MAX), None);
    assert_eq!(hint_letter(0), 'a');
    assert_eq!(hint_letter(25), 'z');
    for c in 0u8..26 {
        assert_eq!(hint_code(hint_letter(c) as u32), Some(c));
    }
}
