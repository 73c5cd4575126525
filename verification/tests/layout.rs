use hlwinter::layout::{label, make_vbox, style_class};
use hlwinter::window::{BlacklistedItem, BlacklistedItems, WindowRecord};

fn win(id: u64, desktop_id: u32, title: &str, class: &str) -> WindowRecord {
    WindowRecord { id, desktop_id, title: String::from(title), class: String::from(class) }
}

fn none() -> BlacklistedItems {
    BlacklistedItems { item: Vec::new() }
}

#[test]
fn rows_follow_the_filter() {
    let wins = vec![
        win(1, 0, "Term", "Alacritty"),
        win(2, 1, "Web", "Firefox"),
        win(3, 0, "A very long window title indeed", "org.gnome.Nautilus"),
    ];
    let (rows, hints) = make_vbox(&wins, Some(0), 16, &none(), 3);
    assert_eq!(rows.len(), 2);
    assert_eq!(rows[0].window, 1);
    assert_eq!(rows[0].hint, Some(0));
    assert_eq!(rows[0].label, "0: Term");
    assert_eq!(rows[0].style_class, "wbtn_Alacritty");
    assert!(!rows[0].current);
    assert_eq!(rows[1].window, 3);
    assert_eq!(rows[1].hint, Some(1));
    assert_eq!(rows[1].label, "0: A very l...e indeed");
    assert_eq!(rows[1].style_class, "wbtn_org_gnome_Nautilus");
    assert!(rows[1].current);
    assert_eq!(hints.len(), 2);
    assert_eq!(hints.get(&0), Some(&1));
    assert_eq!(hints.get(&1), Some(&3));
}

#[test]
fn rows_beyond_the_codes_are_shown_without_one() {
    let wins: Vec<WindowRecord> = (0..30).map(|i| win(100 + i, 7, "t", "c")).collect();
    let (rows, hints) = make_vbox(&wins, None, 20, &none(), 0);
    assert_eq!(rows.len(), 30);
    assert_eq!(hints.len(), 26);
    for (i, row) in rows.iter().enumerate() {
        assert_eq!(row.window, 100 + i as u64);
        assert_eq!(row.label, "7: t");
        if i < 26 {
            assert_eq!(row.hint, Some(i as u8));
            assert_eq!(hints.get(&(i as u8)), Some(&row.window));
        } else {
            assert_eq!(row.hint, None);
        }
    }
}

#[test]
fn blacklisted_classes_get_no_row() {
    let wins = vec![win(1, 0, "Term", "Alacritty"), win(2, 1, "Web", "Firefox")];
    let list = BlacklistedItems { item: vec![BlacklistedItem { class: String::from("Firefox") }] };
    let (rows, hints) = make_vbox(&wins, None, 20, &list, 9);
    assert_eq!(rows.len(), 1);
    assert_eq!(rows[0].window, 1);
    assert_eq!(hints.len(), 1);
    let (rows, hints) = make_vbox(&Vec::new(), None, 20, &list, 9);
    assert!(rows.is_empty());
    assert!(hints.is_empty());
}

#[test]
fn style_class_replaces_dots() {
    assert_eq!(style_class("Firefox"), "wbtn_Firefox");
    assert_eq!(style_class("org.gnome.Nautilus"), "wbtn_org_gnome_Nautilus");
    assert_eq!(style_class("..a.."), "wbtn___a__");
    assert_eq!(style_class(""), "wbtn_");
    assert_eq!(style_class("a_b-c"), "wbtn_a_b-c");
}

#[test]
fn label_names_desktop_and_title() {
    assert_eq!(label(&win(1, 12, "HelloWorldExtra", "c"), 8), "12: Hell...xtra");
    assert_eq!(label(&win(1, 0, "", "c"), 8), "0: ");
    assert_eq!(label(&win(1, u32::MAX, "x", "c"), 8), "4294967295: x");
}
