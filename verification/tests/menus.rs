use tt_gui::stdmenubar::MenuType;
use tt_gui::mainframe::{parse_name, separator_lines, showtoolbar, SeparatorType, StateType, ToolbarChange};
use tt_gui::text::split_tags;
use tt_gui::menubar::{adds_entry, EntryKind, MenuAction, MenuBar};

fn entry(menu: usize, position: Option<i32>, kind: EntryKind, label: &str, underline: Option<i32>, submenu: Option<usize>) -> MenuAction {
    MenuAction::Entry { menu, position, kind, label: label.to_string(), underline, submenu }
}

#[test]
fn constructors_build_variants() {
    let c = MenuType::new_command("&Open", "file:open", "Ctrl o", MenuType::Nil);
    assert_eq!(
        c,
        MenuType::Command("&Open".to_string(), "file:open".to_string(), "Ctrl o".to_string(), Box::new(MenuType::Nil))
    );
    let s = MenuType::new_separator(c.clone());
    assert_eq!(s, MenuType::Separator(Box::new(c.clone())));
    let k = MenuType::new_checkbutton("Grid", "view:grid", "", MenuType::Nil);
    assert_eq!(k, MenuType::CheckButton("Grid".to_string(), "view:grid".to_string(), String::new(), Box::new(MenuType::Nil)));
    let r = MenuType::new_radiobutton("Big", "view:big", "", MenuType::Nil);
    assert_eq!(r, MenuType::RadioButton("Big".to_string(), "view:big".to_string(), String::new(), Box::new(MenuType::Nil)));
    let cs = MenuType::new_cascade("More", "m", "", true, k.clone(), r.clone());
    assert_eq!(cs, MenuType::Cascade("More".to_string(), "m".to_string(), String::new(), true, Box::new(k.clone()), Box::new(r.clone())));
    let m = MenuType::new_menu("&View", "view", "view", false, cs.clone(), MenuType::Nil);
    assert_eq!(m, MenuType::Menu("&View".to_string(), "view".to_string(), "view".to_string(), false, Box::new(cs), Box::new(MenuType::Nil)));
}

#[test]
fn std_menu_shape() {
    let m = MenuType::new_std_menu();
    let mut ids = Vec::new();
    let mut cur = &m;
    while let MenuType::Menu(_, _, id, tear, _, next) = cur {
        assert!(!tear);
        ids.push(id.clone());
        cur = next;
    }
    assert_eq!(*cur, MenuType::Nil);
    assert_eq!(ids, vec!["file", "edit", "view", "options", "help"]);
    match &m {
        MenuType::Menu(name, tags, _, _, entries, _) => {
            assert_eq!(name, "&File");
            assert_eq!(tags, "file:menu");
            match &**entries {
                MenuType::Command(n, t, a, _) => {
                    assert_eq!(n, "&New");
                    assert_eq!(t, "file:new");
                    assert_eq!(a, "Ctrl n");
                }
                _ => panic!("File menu should start with New"),
            }
        }
        _ => panic!("std menu should start with a menu"),
    }
    assert_eq!(m.clone(), m);
}

#[test]
fn parse_name_cases() {
    assert_eq!(parse_name("&File"), ("File".to_string(), Some(0)));
    assert_eq!(parse_name("Save &As..."), ("Save As...".to_string(), Some(5)));
    assert_eq!(parse_name("Copying"), ("Copying".to_string(), None));
    assert_eq!(parse_name("a&b&c"), ("ab&c".to_string(), Some(1)));
    assert_eq!(parse_name("é&x"), ("éx".to_string(), Some(2)));
    assert_eq!(parse_name(""), (String::new(), None));
}

#[test]
fn split_tags_cases() {
    assert_eq!(split_tags("edit:copy edit:havesel"), vec!["edit:copy", "edit:havesel"]);
    assert_eq!(split_tags(""), vec![""]);
    assert_eq!(split_tags("a  b"), vec!["a", "", "b"]);
    assert_eq!(split_tags(" "), vec!["", ""]);
}

#[test]
fn create_std_menubar() {
    let mut bar = MenuBar::new();
    let acts = bar.create_menubar(&MenuType::new_std_menu());
    assert_eq!(acts.len(), 31);
    assert_eq!(acts[0], MenuAction::NewMenu { menu: 1, parent: 0, tearoff: false });
    assert_eq!(acts[1], entry(0, None, EntryKind::Cascade, "File", Some(0), Some(1)));
    assert_eq!(acts[2], entry(1, None, EntryKind::Command, "New", Some(0), None));
    assert_eq!(acts[5], entry(1, None, EntryKind::Command, "Save As...", Some(5), None));
    assert_eq!(acts[7], entry(1, None, EntryKind::Command, "Exit", Some(1), None));
    assert_eq!(acts[8], MenuAction::NewMenu { menu: 2, parent: 0, tearoff: false });
    assert_eq!(acts[15], entry(2, None, EntryKind::Separator, "", None, None));
    assert_eq!(acts[30], entry(5, None, EntryKind::Command, "Copying", None, None));
    assert_eq!(bar.getmenu("file"), Some(1));
    assert_eq!(bar.getmenu("edit"), Some(2));
    assert_eq!(bar.getmenu("view"), Some(3));
    assert_eq!(bar.getmenu("options"), Some(4));
    assert_eq!(bar.getmenu("help"), Some(5));
    assert_eq!(bar.getmenu("tools"), None);
}

#[test]
fn setmenustate_needs_all_tags() {
    let mut bar = MenuBar::new();
    bar.create_menubar(&MenuType::new_std_menu());
    let r = bar.setmenustate("edit:havesel", StateType::Disabled);
    assert_eq!(r, vec![((2, 1), false), ((2, 2), false), ((2, 3), false), ((2, 4), false), ((2, 7), false)]);
    let r = bar.setmenustate("edit:cut", StateType::Disabled);
    assert_eq!(r, vec![((2, 1), false)]);
    let r = bar.setmenustate("edit:havesel", StateType::Normal);
    assert_eq!(r, vec![((2, 1), false), ((2, 2), true), ((2, 3), true), ((2, 4), true), ((2, 7), true)]);
    let r = bar.setmenustate("edit:cut", StateType::Normal);
    assert_eq!(r, vec![((2, 1), true)]);
    assert_eq!(bar.setmenustate("no:such:tag", StateType::Disabled), vec![]);
    let r = bar.setmenustate("file:save", StateType::Disabled);
    assert_eq!(r, vec![((1, 2), false), ((1, 3), false)]);
    let r = bar.setmenustate("file", StateType::Disabled);
    assert_eq!(r, vec![]);
    let r = bar.setmenustate("edit", StateType::Disabled);
    assert_eq!(r, vec![((0, 1), false)]);
}

#[test]
fn menu_add_and_insert() {
    let mut bar = MenuBar::new();
    bar.create_menubar(&MenuType::new_std_menu());
    assert_eq!(bar.menu_add("tools", 0, &MenuType::new_command("X", "x", "", MenuType::Nil)), None);
    let acts = bar.menu_add("help", 7, &MenuType::new_command("&About", "help:about", "", MenuType::Nil)).unwrap();
    assert_eq!(acts, vec![entry(5, None, EntryKind::Command, "About", Some(0), None)]);
    assert_eq!(bar.setmenustate("help:about", StateType::Disabled), vec![((5, 7), false)]);
    assert_eq!(bar.setmenustate("help:copying", StateType::Disabled), vec![((5, 6), false)]);
    let sub = MenuType::new_cascade(
        "&Recent",
        "file:recent",
        "",
        true,
        MenuType::new_checkbutton("One", "r1", "", MenuType::new_separator(MenuType::new_radiobutton("Two", "r2", "", MenuType::Nil))),
        MenuType::Nil,
    );
    assert!(bar.can_shift("file"));
    let acts = bar.menu_insert("file", 2, 0, 6, &sub).unwrap();
    assert_eq!(
        acts,
        vec![
            MenuAction::NewMenu { menu: 6, parent: 1, tearoff: true },
            entry(1, Some(2), EntryKind::Cascade, "Recent", Some(0), Some(6)),
            entry(6, None, EntryKind::CheckButton, "One", None, None),
            entry(6, None, EntryKind::Separator, "", None, None),
            entry(6, None, EntryKind::RadioButton, "Two", None, None),
        ]
    );
    assert_eq!(bar.setmenustate("r2", StateType::Disabled), vec![((6, 3), false)]);
    assert_eq!(bar.setmenustate("r1", StateType::Disabled), vec![((6, 1), false)]);
    assert_eq!(bar.setmenustate("file:recent", StateType::Disabled), vec![((1, 2), false)]);
    assert_eq!(bar.setmenustate("file:new", StateType::Disabled), vec![((1, 0), false)]);
    assert_eq!(bar.setmenustate("file:open", StateType::Disabled), vec![((1, 1), false)]);
    assert_eq!(bar.setmenustate("file:save", StateType::Disabled), vec![((1, 3), false), ((1, 4), false)]);
    assert_eq!(bar.setmenustate("file:close", StateType::Disabled), vec![((1, 5), false)]);
    assert_eq!(bar.setmenustate("file:exit", StateType::Disabled), vec![((1, 6), false)]);
    assert_eq!(bar.menu_add("help", 8, &MenuType::Nil), Some(vec![]));
}

#[test]
fn menu_insert_positions() {
    let mut bar = MenuBar::new();
    bar.create_menubar(&MenuType::new_std_menu());
    assert_eq!(bar.menu_insert("tools", 0, 0, 0, &MenuType::new_command("X", "x", "", MenuType::Nil)), None);
    assert!(bar.can_shift("tools"));
    assert!(!adds_entry(&MenuType::Nil));
    assert!(!adds_entry(&MenuType::new_menu("M", "m", "m", false, MenuType::Nil, MenuType::Nil)));
    assert!(adds_entry(&MenuType::new_separator(MenuType::Nil)));
    assert!(adds_entry(&MenuType::new_command("X", "x", "", MenuType::Nil)));
    assert_eq!(bar.menu_insert("edit", -1, 0, 8, &MenuType::Nil), Some(vec![]));
    assert_eq!(bar.setmenustate("edit:undo", StateType::Normal), vec![((2, 0), true)]);
    let acts = bar.menu_insert("edit", 0, 0, 8, &MenuType::new_command("&Redo", "edit:redo", "", MenuType::Nil)).unwrap();
    assert_eq!(acts, vec![entry(2, Some(0), EntryKind::Command, "Redo", Some(0), None)]);
    assert_eq!(bar.setmenustate("edit:redo", StateType::Disabled), vec![((2, 0), false)]);
    assert_eq!(bar.setmenustate("edit:undo", StateType::Disabled), vec![((2, 1), false)]);
    let acts = bar.menu_insert("edit", 100, 0, 9, &MenuType::new_command("Last", "edit:last", "", MenuType::Nil)).unwrap();
    assert_eq!(acts, vec![entry(2, Some(9), EntryKind::Command, "Last", None, None)]);
    assert_eq!(bar.setmenustate("edit:last", StateType::Disabled), vec![((2, 9), false)]);
    assert_eq!(bar.menu_insert("edit", 0, 0, 10, &MenuType::Nil), Some(vec![]));
    assert_eq!(bar.setmenustate("edit:redo", StateType::Normal), vec![((2, 0), true)]);
    let acts = bar.menu_insert("edit", 1, 0, 10, &MenuType::new_separator(MenuType::Nil)).unwrap();
    assert_eq!(acts, vec![entry(2, Some(1), EntryKind::Separator, "", None, None)]);
    assert_eq!(bar.setmenustate("edit:undo", StateType::Normal), vec![((2, 2), true)]);
    assert_eq!(
        bar.setmenustate("edit:havesel", StateType::Disabled),
        vec![((2, 3), false), ((2, 4), false), ((2, 5), false), ((2, 6), false), ((2, 9), false)]
    );
    assert_eq!(bar.setmenustate("edit:last", StateType::Normal), vec![((2, 10), true)]);
}

#[test]
fn menu_insert_after_tearoff() {
    let mut bar = MenuBar::new();
    let tools = MenuType::new_menu(
        "&Tools",
        "tools",
        "tools",
        true,
        MenuType::new_command("&Run", "tools:run", "", MenuType::new_command("&Stop", "tools:stop", "", MenuType::Nil)),
        MenuType::Nil,
    );
    bar.create_menubar(&tools);
    assert_eq!(bar.getmenu("tools"), Some(1));
    assert_eq!(bar.setmenustate("tools:run", StateType::Normal), vec![((1, 1), true)]);
    let acts = bar.menu_insert("tools", 0, 1, 3, &MenuType::new_command("Step", "tools:step", "", MenuType::Nil)).unwrap();
    assert_eq!(acts, vec![entry(1, Some(1), EntryKind::Command, "Step", None, None)]);
    assert_eq!(bar.setmenustate("tools:step", StateType::Disabled), vec![((1, 1), false)]);
    assert_eq!(bar.setmenustate("tools:run", StateType::Disabled), vec![((1, 2), false)]);
    assert_eq!(bar.setmenustate("tools:stop", StateType::Disabled), vec![((1, 3), false)]);
    let acts = bar.menu_add("tools", 4, &MenuType::new_command("Quit", "tools:quit", "", MenuType::Nil)).unwrap();
    assert_eq!(acts, vec![entry(1, None, EntryKind::Command, "Quit", None, None)]);
    assert_eq!(bar.setmenustate("tools:quit", StateType::Disabled), vec![((1, 4), false)]);
}

#[test]
fn frame_decisions() {
    assert_eq!(separator_lines(SeparatorType::Off), (false, false));
    assert_eq!(separator_lines(SeparatorType::Top), (true, false));
    assert_eq!(separator_lines(SeparatorType::Bottom), (false, true));
    assert_eq!(separator_lines(SeparatorType::Both), (true, true));
    assert_eq!(showtoolbar(3, 2, true, false), ToolbarChange::Keep);
    assert_eq!(showtoolbar(1, 2, false, true), ToolbarChange::Forget);
    assert_eq!(showtoolbar(1, 2, true, false), ToolbarChange::Grid(1));
    assert_eq!(showtoolbar(1, 2, true, true), ToolbarChange::Keep);
    assert_eq!(showtoolbar(0, 2, false, false), ToolbarChange::Keep);
}
