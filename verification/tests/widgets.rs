use tt_gui::buttonbox::{pack_anchor, pack_side, BAlignment, BBOrient, ButtonKind, ButtonSet};
use tt_gui::scrollwindow::{scroll_commands, scroll_layout, setdata, HsbFlags, ScrollOpt, SidesOpt, VsbFlags};
use tt_gui::mainwindow::{buttons_position, path_listed, registered_buttons, state_name, toolbutton_style, NamedSlots};
use tt_gui::mainframe::StateType;
use tt_gui::names::NameTable;

#[test]
fn button_box_packing() {
    assert_eq!(pack_side(BBOrient::Horizontal), "left");
    assert_eq!(pack_side(BBOrient::Vertical), "top");
    assert_eq!(pack_anchor(BBOrient::Horizontal, BAlignment::Left), "w");
    assert_eq!(pack_anchor(BBOrient::Horizontal, BAlignment::Center), "center");
    assert_eq!(pack_anchor(BBOrient::Horizontal, BAlignment::Right), "e");
    assert_eq!(pack_anchor(BBOrient::Vertical, BAlignment::Left), "n");
    assert_eq!(pack_anchor(BBOrient::Vertical, BAlignment::Center), "center");
    assert_eq!(pack_anchor(BBOrient::Vertical, BAlignment::Right), "s");
}

#[test]
fn button_set_lookup() {
    let mut set = ButtonSet::new();
    assert_eq!(set.add("ok", ButtonKind::Plain), 0);
    assert_eq!(set.add("opts", ButtonKind::Menu), 1);
    assert_eq!(set.add("flag", ButtonKind::Check), 2);
    assert_eq!(set.invoke("ok"), Some(0));
    assert_eq!(set.invoke("opts"), None);
    assert_eq!(set.invoke("flag"), Some(2));
    assert_eq!(set.invoke("missing"), None);
    assert_eq!(set.setfocus("opts"), Some(1));
    assert_eq!(set.setfocus("missing"), None);
    assert_eq!(set.add("ok", ButtonKind::Radio), 3);
    assert_eq!(set.invoke("ok"), Some(3));
}

#[test]
fn scroll_layouts() {
    let (h, v) = scroll_layout(ScrollOpt::Both, ScrollOpt::Both, SidesOpt::Se, true);
    assert_eq!(h, HsbFlags { present: true, packed: true, auto: false, row: 2 });
    assert_eq!(v, VsbFlags { present: true, packed: true, auto: false, column: 2 });
    let (h, v) = scroll_layout(ScrollOpt::Vertical, ScrollOpt::Off, SidesOpt::Nw, true);
    assert_eq!(h, HsbFlags { present: false, packed: false, auto: false, row: 0 });
    assert_eq!(v, VsbFlags { present: true, packed: true, auto: false, column: 0 });
    let (h, v) = scroll_layout(ScrollOpt::Horizontal, ScrollOpt::Off, SidesOpt::En, false);
    assert_eq!(h, HsbFlags { present: true, packed: false, auto: false, row: 0 });
    assert_eq!(v, VsbFlags { present: false, packed: false, auto: false, column: 2 });
    let (h, v) = scroll_layout(ScrollOpt::Off, ScrollOpt::Off, SidesOpt::Ws, true);
    assert_eq!((h.packed, h.row, v.packed, v.column), (false, 2, false, 0));
}

#[test]
fn setdata_keeps_packing() {
    let mut h = HsbFlags { present: false, packed: true, auto: false, row: 9 };
    let mut v = VsbFlags { present: true, packed: false, auto: true, column: 9 };
    setdata(&mut h, &mut v, ScrollOpt::Horizontal, ScrollOpt::Vertical, SidesOpt::Wn);
    assert_eq!(h, HsbFlags { present: true, packed: true, auto: false, row: 0 });
    assert_eq!(v, VsbFlags { present: false, packed: false, auto: true, column: 0 });
}

#[test]
fn scroll_command_strings() {
    let c = scroll_commands(".main.c", ".main.hscroll", ".main.vscroll");
    assert_eq!(c.hcommand, ".main.c xview");
    assert_eq!(c.vcommand, ".main.c yview");
    assert_eq!(c.xscrollcommand, ".main.hscroll set");
    assert_eq!(c.yscrollcommand, ".main.vscroll set");
}

#[test]
fn named_slots_add_once() {
    let mut s = NamedSlots::new();
    assert_eq!(s.add("find"), Some(0));
    assert_eq!(s.add("find"), None);
    assert_eq!(s.add("props"), Some(1));
    assert_eq!(s.get("find"), Some(0));
    assert_eq!(s.get("props"), Some(1));
    assert_eq!(s.get("other"), None);
    assert_eq!(s.list(), vec!["find", "props"]);
}

#[test]
fn name_table_latest_wins() {
    let mut t = NameTable::new();
    t.insert("a", 1);
    t.insert("b", 2);
    t.insert("a", 3);
    assert_eq!(t.get("a"), Some(3));
    assert_eq!(t.get("b"), Some(2));
    assert!(t.contains("b"));
    assert!(!t.contains("c"));
    assert_eq!(t.keys(), vec!["a", "b"]);
}

#[test]
fn window_decisions() {
    let panes = vec![".main".to_string(), ".buttons".to_string()];
    assert!(path_listed(&panes, ".buttons"));
    assert!(!path_listed(&panes, ".slide"));
    assert_eq!(buttons_position(1), None);
    assert_eq!(buttons_position(2), Some(1));
    assert_eq!(buttons_position(0), Some(1));
    assert_eq!(state_name(StateType::Disabled), "disabled");
    assert_eq!(state_name(StateType::Normal), "normal");
    assert_eq!(toolbutton_style(ButtonKind::Check), None);
    assert_eq!(toolbutton_style(ButtonKind::Plain), Some("Toolbutton"));
    assert_eq!(toolbutton_style(ButtonKind::Menu), Some("Toolbutton"));
}

#[test]
fn tool_buttons_among_children() {
    let mut set = ButtonSet::new();
    set.add(".tb.open", ButtonKind::Plain);
    set.add(".tb.bold", ButtonKind::Check);
    let children = vec![".tb.bold".to_string(), ".tb.label".to_string(), ".tb.open".to_string()];
    assert_eq!(registered_buttons(&set, &children), vec![1, 0]);
    assert_eq!(registered_buttons(&set, &vec![]), Vec::<usize>::new());
}
