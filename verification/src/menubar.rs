use vstd::prelude::*;
use crate::stdmenubar::{MenuType, MenuView};
use crate::mainframe::{parse_name, parsed_name, StateType};
use crate::menutags::{
    MenuTags, MenuTagsView, EntryKey, register_view, set_state_view, all_tags_enabled, lemma_register_keeps_enabled,
    law_register_keeps_states, keys_shiftable, shift_key, shift_view, law_shift_keeps_entries,
};
use crate::text::split_spaces;
use crate::names::{NameTable, lookup_id, lemma_lookup_some, lemma_lookup_latest};
use crate::stdmenubar::std_menu_view;

verus! {

/// The kind of a menu entry.
#[derive(PartialEq, Eq, Structural, Clone, Copy, Debug)]
pub enum EntryKind {
    Command,
    Cascade,
    CheckButton,
    RadioButton,
    Separator,
}

/// One step in building menus. Menus are numbered; the menu bar is menu 0.
#[derive(PartialEq, Debug)]
pub enum MenuAction {
    /// Create menu number `menu` as a child of menu `parent`.
    NewMenu { menu: usize, parent: usize, tearoff: bool },
    /// Add an entry at the end of `menu` (`position` is `None`), or insert
    /// it before `position`. A cascade opens menu `submenu`.
    Entry {
        menu: usize,
        position: Option<i32>,
        kind: EntryKind,
        label: String,
        underline: Option<i32>,
        submenu: Option<usize>,
    },
}

/// The mathematical value of a `MenuAction`.
pub enum ActionView {
    NewMenu(usize, usize, bool),
    Entry(usize, Option<i32>, EntryKind, Seq<char>, Option<i32>, Option<usize>),
}

impl View for MenuAction {
    type V = ActionView;

    open spec fn view(&self) -> ActionView {
        match *self {
            MenuAction::NewMenu { menu, parent, tearoff } => ActionView::NewMenu(menu, parent, tearoff),
            MenuAction::Entry { menu, position, kind, label, underline, submenu } => ActionView::Entry(
                menu,
                position,
                kind,
                label@,
                underline,
                submenu,
            ),
        }
    }
}

pub open spec fn actions_view(a: Seq<MenuAction>) -> Seq<ActionView> {
    a.map_values(|x: MenuAction| x@)
}

/// The mathematical value of a `MenuBar`.
#[verifier::ext_equal]
pub struct BarView {
    pub tags: MenuTagsView,
    /// Menu ids and the menus created under them, oldest first.
    pub menu_ids: Seq<(Seq<char>, usize)>,
    /// How many menus there are, the menu bar included.
    pub num_menus: nat,
}

/// The number of items in a menu specification, nested ones included.
pub open spec fn menu_size(m: MenuView) -> nat
    decreases m,
{
    match m {
        MenuView::Menu(_, _, _, _, e, n) => 1 + menu_size(*e) + menu_size(*n),
        MenuView::Command(_, _, _, n) => 1 + menu_size(*n),
        MenuView::Cascade(_, _, _, _, e, n) => 1 + menu_size(*e) + menu_size(*n),
        MenuView::CheckButton(_, _, _, n) => 1 + menu_size(*n),
        MenuView::RadioButton(_, _, _, n) => 1 + menu_size(*n),
        MenuView::Separator(n) => 1 + menu_size(*n),
        MenuView::Nil => 0,
    }
}

/// A list of menu entries: no top-level menu stands in it, nor in the
/// entries of its cascades.
pub open spec fn entries_ok(m: MenuView) -> bool
    decreases m,
{
    match m {
        MenuView::Menu(..) => false,
        MenuView::Command(_, _, _, n) => entries_ok(*n),
        MenuView::Cascade(_, _, _, _, e, n) => entries_ok(*e) && entries_ok(*n),
        MenuView::CheckButton(_, _, _, n) => entries_ok(*n),
        MenuView::RadioButton(_, _, _, n) => entries_ok(*n),
        MenuView::Separator(n) => entries_ok(*n),
        MenuView::Nil => true,
    }
}

/// A single entry to add: a cascade's entries must be a list of entries.
pub open spec fn entry_ok(m: MenuView) -> bool {
    match m {
        MenuView::Cascade(_, _, _, _, e, _) => entries_ok(*e),
        _ => true,
    }
}

/// A menu bar: a list of top-level menus, each holding a list of entries.
pub open spec fn menubar_ok(m: MenuView) -> bool
    decreases m,
{
    match m {
        MenuView::Menu(_, _, _, _, e, n) => entries_ok(*e) && menubar_ok(*n),
        MenuView::Nil => true,
        _ => false,
    }
}

/// The index of a menu's first entry: 1 when it can be torn off, since the
/// tear-off line takes index 0.
pub open spec fn first_index(tearoff: bool) -> usize {
    if tearoff {
        1
    } else {
        0
    }
}

pub open spec fn with_entry(s: BarView, key: EntryKey, tags: Seq<char>) -> BarView {
    BarView { tags: register_view(s.tags, key, tags), ..s }
}

pub open spec fn entry_action(
    menu: usize,
    pos: Option<i32>,
    kind: EntryKind,
    name: Seq<char>,
    sub: Option<usize>,
) -> ActionView {
    ActionView::Entry(menu, pos, kind, parsed_name(name).0, parsed_name(name).1, sub)
}

/// What adding entry `e` (its own item only, not those after it) at index
/// `idx` of menu `menu` does: the actions, and the registry afterwards.
pub open spec fn entry_plan(s: BarView, menu: usize, idx: usize, pos: Option<i32>, e: MenuView) -> (
    BarView,
    Seq<ActionView>,
)
    decreases e, 0nat,
{
    match e {
        MenuView::Command(n, t, _, _) => (
            with_entry(s, (menu, idx), t),
            seq![entry_action(menu, pos, EntryKind::Command, n, None)],
        ),
        MenuView::CheckButton(n, t, _, _) => (
            with_entry(s, (menu, idx), t),
            seq![entry_action(menu, pos, EntryKind::CheckButton, n, None)],
        ),
        MenuView::RadioButton(n, t, _, _) => (
            with_entry(s, (menu, idx), t),
            seq![entry_action(menu, pos, EntryKind::RadioButton, n, None)],
        ),
        MenuView::Cascade(n, t, _, tear, ents, _) => {
            let sub = s.num_menus as usize;
            let s1 = with_entry(BarView { num_menus: s.num_menus + 1, ..s }, (menu, idx), t);
            let r = chain_plan(s1, sub, first_index(tear), *ents);
            (
                r.0,
                seq![
                    ActionView::NewMenu(sub, menu, tear),
                    entry_action(menu, pos, EntryKind::Cascade, n, Some(sub)),
                ] + r.1,
            )
        },
        MenuView::Separator(_) => (
            s,
            seq![ActionView::Entry(menu, pos, EntryKind::Separator, Seq::empty(), None, None)],
        ),
        _ => (s, Seq::empty()),
    }
}

/// What adding the list of entries `chain` to menu `menu`, from index `idx`
/// on, does.
pub open spec fn chain_plan(s: BarView, menu: usize, idx: usize, chain: MenuView) -> (
    BarView,
    Seq<ActionView>,
)
    decreases chain, 1nat,
{
    match chain {
        MenuView::Command(_, _, _, n) => {
            let r1 = entry_plan(s, menu, idx, None, chain);
            let r2 = chain_plan(r1.0, menu, (#[verifier::truncate] ((idx + 1) as usize)), *n);
            (r2.0, r1.1 + r2.1)
        },
        MenuView::Cascade(_, _, _, _, _, n) => {
            let r1 = entry_plan(s, menu, idx, None, chain);
            let r2 = chain_plan(r1.0, menu, (#[verifier::truncate] ((idx + 1) as usize)), *n);
            (r2.0, r1.1 + r2.1)
        },
        MenuView::CheckButton(_, _, _, n) => {
            let r1 = entry_plan(s, menu, idx, None, chain);
            let r2 = chain_plan(r1.0, menu, (#[verifier::truncate] ((idx + 1) as usize)), *n);
            (r2.0, r1.1 + r2.1)
        },
        MenuView::RadioButton(_, _, _, n) => {
            let r1 = entry_plan(s, menu, idx, None, chain);
            let r2 = chain_plan(r1.0, menu, (#[verifier::truncate] ((idx + 1) as usize)), *n);
            (r2.0, r1.1 + r2.1)
        },
        MenuView::Separator(n) => {
            let r1 = entry_plan(s, menu, idx, None, chain);
            let r2 = chain_plan(r1.0, menu, (#[verifier::truncate] ((idx + 1) as usize)), *n);
            (r2.0, r1.1 + r2.1)
        },
        _ => (s, Seq::empty()),
    }
}

pub open spec fn chain_next(chain: MenuView) -> Option<MenuView> {
    match chain {
        MenuView::Command(_, _, _, n) => Some(*n),
        MenuView::Cascade(_, _, _, _, _, n) => Some(*n),
        MenuView::CheckButton(_, _, _, n) => Some(*n),
        MenuView::RadioButton(_, _, _, n) => Some(*n),
        MenuView::Separator(n) => Some(*n),
        MenuView::Menu(_, _, _, _, _, n) => Some(*n),
        MenuView::Nil => None,
    }
}

/// What building the menu bar (menu 0) from `chain`, its menus placed from
/// index `idx` on, does. Each top-level menu gets a new number, is recorded
/// under its menu id, and appears as a cascade of the menu bar.
pub open spec fn bar_plan(s: BarView, idx: usize, chain: MenuView) -> (BarView, Seq<ActionView>)
    decreases chain,
{
    match chain {
        MenuView::Menu(n, t, id, tear, ents, next) => {
            let sub = s.num_menus as usize;
            let s1 = with_entry(
                BarView { num_menus: s.num_menus + 1, menu_ids: s.menu_ids.push((id, sub)), ..s },
                (0usize, idx),
                t,
            );
            let r1 = chain_plan(s1, sub, first_index(tear), *ents);
            let r2 = bar_plan(r1.0, (#[verifier::truncate] ((idx + 1) as usize)), *next);
            (
                r2.0,
                seq![
                    ActionView::NewMenu(sub, 0usize, tear),
                    entry_action(0usize, None, EntryKind::Cascade, n, Some(sub)),
                ] + r1.1 + r2.1,
            )
        },
        _ => (s, Seq::empty()),
    }
}

/// The menu ids of the top-level menus of a menu bar, in order.
pub open spec fn top_ids(chain: MenuView) -> Seq<Seq<char>>
    decreases chain,
{
    match chain {
        MenuView::Menu(_, _, id, _, _, next) => seq![id] + top_ids(*next),
        _ => Seq::empty(),
    }
}

/// Adding an entry records no menu id.
pub proof fn lemma_entry_keeps_ids(s: BarView, menu: usize, idx: usize, pos: Option<i32>, e: MenuView)
    ensures
        entry_plan(s, menu, idx, pos, e).0.menu_ids == s.menu_ids,
    decreases e, 0nat,
{
    match e {
        MenuView::Cascade(n, t, _, tear, ents, _) => {
            let s1 = with_entry(BarView { num_menus: s.num_menus + 1, ..s }, (menu, idx), t);
            lemma_chain_keeps_ids(s1, s.num_menus as usize, first_index(tear), *ents);
        },
        _ => {},
    }
}

/// Adding a list of entries records no menu id.
pub proof fn lemma_chain_keeps_ids(s: BarView, menu: usize, idx: usize, chain: MenuView)
    ensures
        chain_plan(s, menu, idx, chain).0.menu_ids == s.menu_ids,
    decreases chain, 1nat,
{
    match chain {
        MenuView::Command(_, _, _, n) => {
            lemma_entry_keeps_ids(s, menu, idx, None, chain);
            lemma_chain_keeps_ids(entry_plan(s, menu, idx, None, chain).0, menu, (#[verifier::truncate] ((idx + 1) as usize)), *n);
        },
        MenuView::Cascade(_, _, _, _, _, n) => {
            lemma_entry_keeps_ids(s, menu, idx, None, chain);
            lemma_chain_keeps_ids(entry_plan(s, menu, idx, None, chain).0, menu, (#[verifier::truncate] ((idx + 1) as usize)), *n);
        },
        MenuView::CheckButton(_, _, _, n) => {
            lemma_entry_keeps_ids(s, menu, idx, None, chain);
            lemma_chain_keeps_ids(entry_plan(s, menu, idx, None, chain).0, menu, (#[verifier::truncate] ((idx + 1) as usize)), *n);
        },
        MenuView::RadioButton(_, _, _, n) => {
            lemma_entry_keeps_ids(s, menu, idx, None, chain);
            lemma_chain_keeps_ids(entry_plan(s, menu, idx, None, chain).0, menu, (#[verifier::truncate] ((idx + 1) as usize)), *n);
        },
        MenuView::Separator(n) => {
            lemma_entry_keeps_ids(s, menu, idx, None, chain);
            lemma_chain_keeps_ids(entry_plan(s, menu, idx, None, chain).0, menu, (#[verifier::truncate] ((idx + 1) as usize)), *n);
        },
        _ => {},
    }
}

/// Building a menu bar records the top-level menus' ids, in order, after
/// those recorded before.
pub proof fn lemma_bar_ids(s: BarView, idx: usize, chain: MenuView)
    ensures
        bar_plan(s, idx, chain).0.menu_ids.len() == s.menu_ids.len() + top_ids(chain).len(),
        forall|i: int| 0 <= i < s.menu_ids.len() ==> #[trigger] bar_plan(s, idx, chain).0.menu_ids[i] == s.menu_ids[i],
        forall|i: int|
            0 <= i < top_ids(chain).len() ==> #[trigger] bar_plan(s, idx, chain).0.menu_ids[s.menu_ids.len() + i].0
                == top_ids(chain)[i],
    decreases chain,
{
    match chain {
        MenuView::Menu(n, t, id, tear, ents, next) => {
            let sub = s.num_menus as usize;
            let s1 = with_entry(
                BarView { num_menus: s.num_menus + 1, menu_ids: s.menu_ids.push((id, sub)), ..s },
                (0usize, idx),
                t,
            );
            lemma_chain_keeps_ids(s1, sub, first_index(tear), *ents);
            let r1 = chain_plan(s1, sub, first_index(tear), *ents);
            lemma_bar_ids(r1.0, (#[verifier::truncate] ((idx + 1) as usize)), *next);
            let r = bar_plan(s, idx, chain).0.menu_ids;
            assert forall|i: int| 0 <= i < top_ids(chain).len() implies #[trigger] r[s.menu_ids.len() + i].0 == top_ids(chain)[i] by {
                if i == 0 {
                    assert(r1.0.menu_ids[s.menu_ids.len() as int] == (id, sub));
                } else {
                    assert(top_ids(chain)[i] == top_ids(*next)[i - 1]);
                    assert(r[r1.0.menu_ids.len() + (i - 1)].0 == top_ids(*next)[i - 1]);
                }
            }
        },
        _ => {},
    }
}

/// Adding an entry keeps every tag enabled when every tag was.
pub proof fn lemma_entry_keeps_enabled(s: BarView, menu: usize, idx: usize, pos: Option<i32>, e: MenuView)
    requires
        all_tags_enabled(s.tags),
    ensures
        all_tags_enabled(entry_plan(s, menu, idx, pos, e).0.tags),
    decreases e, 0nat,
{
    match e {
        MenuView::Command(_, t, _, _) => lemma_register_keeps_enabled(s.tags, (menu, idx), t),
        MenuView::CheckButton(_, t, _, _) => lemma_register_keeps_enabled(s.tags, (menu, idx), t),
        MenuView::RadioButton(_, t, _, _) => lemma_register_keeps_enabled(s.tags, (menu, idx), t),
        MenuView::Cascade(n, t, _, tear, ents, _) => {
            lemma_register_keeps_enabled(s.tags, (menu, idx), t);
            let s1 = with_entry(BarView { num_menus: s.num_menus + 1, ..s }, (menu, idx), t);
            lemma_chain_keeps_enabled(s1, s.num_menus as usize, first_index(tear), *ents);
        },
        _ => {},
    }
}

/// Adding a list of entries keeps every tag enabled when every tag was.
pub proof fn lemma_chain_keeps_enabled(s: BarView, menu: usize, idx: usize, chain: MenuView)
    requires
        all_tags_enabled(s.tags),
    ensures
        all_tags_enabled(chain_plan(s, menu, idx, chain).0.tags),
    decreases chain, 1nat,
{
    let i1 = (#[verifier::truncate] ((idx + 1) as usize));
    match chain {
        MenuView::Command(_, _, _, n) => {
            lemma_entry_keeps_enabled(s, menu, idx, None, chain);
            lemma_chain_keeps_enabled(entry_plan(s, menu, idx, None, chain).0, menu, i1, *n);
        },
        MenuView::Cascade(_, _, _, _, _, n) => {
            lemma_entry_keeps_enabled(s, menu, idx, None, chain);
            lemma_chain_keeps_enabled(entry_plan(s, menu, idx, None, chain).0, menu, i1, *n);
        },
        MenuView::CheckButton(_, _, _, n) => {
            lemma_entry_keeps_enabled(s, menu, idx, None, chain);
            lemma_chain_keeps_enabled(entry_plan(s, menu, idx, None, chain).0, menu, i1, *n);
        },
        MenuView::RadioButton(_, _, _, n) => {
            lemma_entry_keeps_enabled(s, menu, idx, None, chain);
            lemma_chain_keeps_enabled(entry_plan(s, menu, idx, None, chain).0, menu, i1, *n);
        },
        MenuView::Separator(n) => {
            lemma_entry_keeps_enabled(s, menu, idx, None, chain);
            lemma_chain_keeps_enabled(entry_plan(s, menu, idx, None, chain).0, menu, i1, *n);
        },
        _ => {},
    }
}

/// Every entry of a newly built menu bar starts enabled: building keeps
/// every tag enabled when every tag was, as in a fresh menu bar.
pub proof fn law_built_menus_enabled(s: BarView, idx: usize, chain: MenuView)
    requires
        all_tags_enabled(s.tags),
    ensures
        all_tags_enabled(bar_plan(s, idx, chain).0.tags),
    decreases chain,
{
    match chain {
        MenuView::Menu(_, t, id, tear, ents, next) => {
            let sub = s.num_menus as usize;
            lemma_register_keeps_enabled(s.tags, (0usize, idx), t);
            let s1 = with_entry(
                BarView { num_menus: s.num_menus + 1, menu_ids: s.menu_ids.push((id, sub)), ..s },
                (0usize, idx),
                t,
            );
            lemma_chain_keeps_enabled(s1, sub, first_index(tear), *ents);
            let r1 = chain_plan(s1, sub, first_index(tear), *ents);
            law_built_menus_enabled(r1.0, (#[verifier::truncate] ((idx + 1) as usize)), *next);
        },
        _ => {},
    }
}

/// After a menu bar is built, every top-level menu's id names a menu.
pub proof fn law_menubar_ids_recorded(s: BarView, chain: MenuView)
    ensures
        forall|i: int| 0 <= i < top_ids(chain).len()
            ==> #[trigger] lookup_id(bar_plan(s, 0, chain).0.menu_ids, top_ids(chain)[i]) is Some,
{
    lemma_bar_ids(s, 0, chain);
    let r = bar_plan(s, 0, chain).0.menu_ids;
    assert forall|i: int| 0 <= i < top_ids(chain).len() implies #[trigger] lookup_id(r, top_ids(chain)[i]) is Some by {
        lemma_lookup_some(r, top_ids(chain)[i]);
        assert(r[s.menu_ids.len() + i].0 == top_ids(chain)[i]);
    }
}

/// The standard menu bar is a menu bar: five top-level menus, File, Edit,
/// View, Options and Help, holding 21 entries between them.
pub proof fn law_std_menu_is_menubar()
    ensures
        menubar_ok(std_menu_view()),
        menu_size(std_menu_view()) == 26,
        top_ids(std_menu_view()) == seq!["file"@, "edit"@, "view"@, "options"@, "help"@],
{
    reveal_with_fuel(menu_size, 20);
    reveal_with_fuel(entries_ok, 10);
    reveal_with_fuel(menubar_ok, 6);
    reveal_with_fuel(top_ids, 6);
    assert(top_ids(std_menu_view()) =~= seq!["file"@, "edit"@, "view"@, "options"@, "help"@]);
}

/// The menus that a list of steps creates, by number, in order.
pub open spec fn created_menus(acts: Seq<ActionView>) -> Seq<usize>
    decreases acts.len(),
{
    if acts.len() == 0 {
        Seq::empty()
    } else {
        match acts.last() {
            ActionView::NewMenu(m, _, _) => created_menus(acts.drop_last()).push(m),
            _ => created_menus(acts.drop_last()),
        }
    }
}

/// The menus that a list of steps creates directly under the menu bar
/// (menu 0), each with whether it has a tear-off line, in order.
pub open spec fn bar_menus(acts: Seq<ActionView>) -> Seq<(usize, bool)>
    decreases acts.len(),
{
    if acts.len() == 0 {
        Seq::empty()
    } else {
        match acts.last() {
            ActionView::NewMenu(m, parent, tear) => if parent == 0 {
                bar_menus(acts.drop_last()).push((m, tear))
            } else {
                bar_menus(acts.drop_last())
            },
            _ => bar_menus(acts.drop_last()),
        }
    }
}

/// The tear-off choices of the top-level menus of a menu bar, in order.
pub open spec fn top_tears(chain: MenuView) -> Seq<bool>
    decreases chain,
{
    match chain {
        MenuView::Menu(_, _, _, tear, _, next) => seq![tear] + top_tears(*next),
        _ => Seq::empty(),
    }
}

/// Numbers counted up one by one from `start`.
pub open spec fn numbered(ns: Seq<usize>, start: nat) -> bool {
    forall|k: int| 0 <= k < ns.len() ==> #[trigger] ns[k] == start + k
}

proof fn lemma_menus_concat(a: Seq<ActionView>, b: Seq<ActionView>)
    ensures
        created_menus(a + b) == created_menus(a) + created_menus(b),
        bar_menus(a + b) == bar_menus(a) + bar_menus(b),
    decreases b.len(),
{
    if b.len() == 0 {
        assert(a + b =~= a);
        assert(created_menus(a) + created_menus(b) =~= created_menus(a));
        assert(bar_menus(a) + bar_menus(b) =~= bar_menus(a));
    } else {
        lemma_menus_concat(a, b.drop_last());
        assert((a + b).drop_last() =~= a + b.drop_last());
        assert((a + b).last() == b.last());
        let ca = created_menus(a);
        let cb = created_menus(b.drop_last());
        let ba = bar_menus(a);
        let bb = bar_menus(b.drop_last());
        match b.last() {
            ActionView::NewMenu(m, parent, tear) => {
                assert((ca + cb).push(m) =~= ca + cb.push(m));
                assert((ba + bb).push((m, tear)) =~= ba + bb.push((m, tear)));
            },
            _ => {},
        }
    }
}

proof fn lemma_pair_menus(x: ActionView, y: ActionView)
    requires
        y is Entry,
    ensures
        created_menus(seq![x, y]) == created_menus(seq![x]),
        bar_menus(seq![x, y]) == bar_menus(seq![x]),
        x matches ActionView::NewMenu(m, parent, tear) ==> created_menus(seq![x]) == seq![m]
            && bar_menus(seq![x]) == (if parent == 0 { seq![(m, tear)] } else { Seq::empty() }),
{
    assert(seq![x, y].drop_last() =~= seq![x]);
    assert(seq![x].drop_last() =~= Seq::<ActionView>::empty());
    reveal_with_fuel(created_menus, 2);
    reveal_with_fuel(bar_menus, 2);
    if let ActionView::NewMenu(m, parent, tear) = x {
        assert(Seq::<usize>::empty().push(m) =~= seq![m]);
        assert(Seq::<(usize, bool)>::empty().push((m, tear)) =~= seq![(m, tear)]);
    }
}

proof fn lemma_one_entry_menus(y: ActionView)
    requires
        y is Entry,
    ensures
        created_menus(seq![y]).len() == 0,
        bar_menus(seq![y]).len() == 0,
{
    assert(seq![y].drop_last() =~= Seq::<ActionView>::empty());
    assert(seq![y].last() == y);
    reveal_with_fuel(created_menus, 2);
    reveal_with_fuel(bar_menus, 2);
}

/// Adding an entry creates menus numbered on from the first free number,
/// none of them under the menu bar when it goes into another menu.
proof fn lemma_entry_numbers(s: BarView, menu: usize, idx: usize, pos: Option<i32>, e: MenuView)
    requires
        s.num_menus + menu_size(e) <= usize::MAX,
    ensures
        numbered(created_menus(entry_plan(s, menu, idx, pos, e).1), s.num_menus),
        entry_plan(s, menu, idx, pos, e).0.num_menus == s.num_menus + created_menus(entry_plan(s, menu, idx, pos, e).1).len(),
        created_menus(entry_plan(s, menu, idx, pos, e).1).len() <= entry_size(e),
        menu != 0 && s.num_menus >= 1 ==> bar_menus(entry_plan(s, menu, idx, pos, e).1).len() == 0,
        entry_plan(s, menu, idx, pos, e).0.menu_ids == s.menu_ids,
    decreases e, 0nat,
{
    lemma_entry_keeps_ids(s, menu, idx, pos, e);
    match e {
        MenuView::Command(n, t, _, _) => lemma_one_entry_menus(entry_action(menu, pos, EntryKind::Command, n, None)),
        MenuView::CheckButton(n, t, _, _) => lemma_one_entry_menus(entry_action(menu, pos, EntryKind::CheckButton, n, None)),
        MenuView::RadioButton(n, t, _, _) => lemma_one_entry_menus(entry_action(menu, pos, EntryKind::RadioButton, n, None)),
        MenuView::Separator(_) => lemma_one_entry_menus(ActionView::Entry(menu, pos, EntryKind::Separator, Seq::empty(), None, None)),
        MenuView::Cascade(n, t, _, tear, ents, _) => {
            let sub = s.num_menus as usize;
            let s1 = with_entry(BarView { num_menus: s.num_menus + 1, ..s }, (menu, idx), t);
            lemma_chain_numbers(s1, sub, first_index(tear), *ents);
            let rc = chain_plan(s1, sub, first_index(tear), *ents);
            let head = seq![ActionView::NewMenu(sub, menu, tear), entry_action(menu, pos, EntryKind::Cascade, n, Some(sub))];
            lemma_pair_menus(head[0], head[1]);
            assert(head == seq![head[0], head[1]]);
            lemma_menus_concat(head, rc.1);
            let c = created_menus(entry_plan(s, menu, idx, pos, e).1);
            assert(c == seq![sub] + created_menus(rc.1));
            assert forall|k: int| 0 <= k < c.len() implies #[trigger] c[k] == s.num_menus + k by {
                if k > 0 {
                    assert(c[k] == created_menus(rc.1)[k - 1]);
                }
            }
        },
        _ => {},
    }
}

/// Adding a list of entries creates menus numbered on from the first free
/// number, none of them under the menu bar when it goes into another menu.
proof fn lemma_chain_numbers(s: BarView, menu: usize, idx: usize, chain: MenuView)
    requires
        s.num_menus + menu_size(chain) <= usize::MAX,
    ensures
        numbered(created_menus(chain_plan(s, menu, idx, chain).1), s.num_menus),
        chain_plan(s, menu, idx, chain).0.num_menus == s.num_menus + created_menus(chain_plan(s, menu, idx, chain).1).len(),
        created_menus(chain_plan(s, menu, idx, chain).1).len() <= menu_size(chain),
        menu != 0 && s.num_menus >= 1 ==> bar_menus(chain_plan(s, menu, idx, chain).1).len() == 0,
    decreases chain, 1nat,
{
    let i1 = (#[verifier::truncate] ((idx + 1) as usize));
    let next = chain_next(chain);
    match chain {
        MenuView::Menu(..) => {},
        MenuView::Nil => {
            assert(created_menus(Seq::<ActionView>::empty()).len() == 0);
        },
        _ => {
            let n = next->0;
            lemma_entry_numbers(s, menu, idx, None, chain);
            let r1 = entry_plan(s, menu, idx, None, chain);
            lemma_chain_numbers(r1.0, menu, i1, n);
            let r2 = chain_plan(r1.0, menu, i1, n);
            assert(chain_plan(s, menu, idx, chain).1 == r1.1 + r2.1);
            lemma_menus_concat(r1.1, r2.1);
            let c = created_menus(r1.1 + r2.1);
            let c1 = created_menus(r1.1);
            assert forall|k: int| 0 <= k < c.len() implies #[trigger] c[k] == s.num_menus + k by {
                if k >= c1.len() {
                    assert(c[k] == created_menus(r2.1)[k - c1.len()]);
                } else {
                    assert(c[k] == c1[k]);
                }
            }
        },
    }
}

/// Building a menu bar creates menus numbered on from the first free
/// number, one under the bar for each top-level menu, with that menu's
/// tear-off choice; each is recorded under the menu's id.
proof fn lemma_bar_numbers(s: BarView, idx: usize, chain: MenuView)
    requires
        s.num_menus >= 1,
        s.num_menus + menu_size(chain) <= usize::MAX,
    ensures
        numbered(created_menus(bar_plan(s, idx, chain).1), s.num_menus),
        bar_plan(s, idx, chain).0.num_menus == s.num_menus + created_menus(bar_plan(s, idx, chain).1).len(),
        created_menus(bar_plan(s, idx, chain).1).len() <= menu_size(chain),
        bar_menus(bar_plan(s, idx, chain).1).len() == top_tears(chain).len(),
        top_tears(chain).len() == top_ids(chain).len(),
        forall|i: int|
            0 <= i < top_tears(chain).len() ==> #[trigger] bar_menus(bar_plan(s, idx, chain).1)[i] == (
                bar_plan(s, idx, chain).0.menu_ids[s.menu_ids.len() + i].1,
                top_tears(chain)[i],
            ),
    decreases chain,
{
    lemma_bar_ids(s, idx, chain);
    match chain {
        MenuView::Menu(n, t, id, tear, ents, next) => {
            let sub = s.num_menus as usize;
            let s1 = with_entry(
                BarView { num_menus: s.num_menus + 1, menu_ids: s.menu_ids.push((id, sub)), ..s },
                (0usize, idx),
                t,
            );
            lemma_chain_numbers(s1, sub, first_index(tear), *ents);
            lemma_chain_keeps_ids(s1, sub, first_index(tear), *ents);
            let r1 = chain_plan(s1, sub, first_index(tear), *ents);
            let i1 = (#[verifier::truncate] ((idx + 1) as usize));
            lemma_bar_numbers(r1.0, i1, *next);
            lemma_bar_ids(r1.0, i1, *next);
            let r2 = bar_plan(r1.0, i1, *next);
            let head = seq![ActionView::NewMenu(sub, 0usize, tear), entry_action(0usize, None, EntryKind::Cascade, n, Some(sub))];
            lemma_pair_menus(head[0], head[1]);
            assert(head == seq![head[0], head[1]]);
            let acts = bar_plan(s, idx, chain).1;
            assert(acts == head + r1.1 + r2.1);
            lemma_menus_concat(head, r1.1);
            lemma_menus_concat(head + r1.1, r2.1);
            let c = created_menus(acts);
            let c1 = created_menus(r1.1);
            assert(c == seq![sub] + c1 + created_menus(r2.1));
            assert forall|k: int| 0 <= k < c.len() implies #[trigger] c[k] == s.num_menus + k by {
                if k == 0 {
                } else if k < 1 + c1.len() {
                    assert(c[k] == c1[k - 1]);
                } else {
                    assert(c[k] == created_menus(r2.1)[k - 1 - c1.len()]);
                }
            }
            let b = bar_menus(acts);
            assert(bar_menus(r1.1).len() == 0);
            assert(b =~= seq![(sub, tear)] + bar_menus(r2.1));
            assert(top_tears(chain) == seq![tear] + top_tears(*next));
            assert(r1.0.menu_ids == s.menu_ids.push((id, sub)));
            assert forall|i: int| 0 <= i < top_tears(chain).len() implies #[trigger] b[i] == (
                r2.0.menu_ids[s.menu_ids.len() + i].1,
                top_tears(chain)[i],
            ) by {
                if i == 0 {
                    assert(r2.0.menu_ids[s.menu_ids.len() as int] == r1.0.menu_ids[s.menu_ids.len() as int]);
                } else {
                    assert(b[i] == bar_menus(r2.1)[i - 1]);
                    assert(top_tears(chain)[i] == top_tears(*next)[i - 1]);
                    assert(r1.0.menu_ids.len() + (i - 1) == s.menu_ids.len() + i);
                }
            }
        },
        _ => {
            assert(created_menus(Seq::<ActionView>::empty()).len() == 0);
            assert(bar_menus(Seq::<ActionView>::empty()).len() == 0);
        },
    }
}

/// Building a menu bar creates its menus numbered one by one from the
/// first free number, one directly under the bar for each top-level menu,
/// in order and with that menu's tear-off choice; afterwards each
/// top-level menu's id names the menu created for it, unless a later
/// top-level menu takes the same id.
pub proof fn law_menubar_menus(s: BarView, chain: MenuView)
    requires
        s.num_menus >= 1,
        s.num_menus + menu_size(chain) <= usize::MAX,
    ensures
        forall|k: int|
            0 <= k < created_menus(bar_plan(s, 0, chain).1).len() ==> #[trigger] created_menus(bar_plan(s, 0, chain).1)[k]
                == s.num_menus + k,
        bar_plan(s, 0, chain).0.num_menus == s.num_menus + created_menus(bar_plan(s, 0, chain).1).len(),
        bar_menus(bar_plan(s, 0, chain).1).len() == top_ids(chain).len(),
        forall|i: int|
            0 <= i < top_ids(chain).len() ==> #[trigger] bar_menus(bar_plan(s, 0, chain).1)[i].1 == top_tears(chain)[i],
        forall|i: int|
            0 <= i < top_ids(chain).len() && (forall|j: int| i < j < top_ids(chain).len() ==> top_ids(chain)[j] != top_ids(chain)[i])
                ==> #[trigger] lookup_id(bar_plan(s, 0, chain).0.menu_ids, top_ids(chain)[i]) == Some(
                bar_menus(bar_plan(s, 0, chain).1)[i].0,
            ),
{
    lemma_bar_numbers(s, 0, chain);
    lemma_bar_ids(s, 0, chain);
    let r = bar_plan(s, 0, chain).0.menu_ids;
    let b = bar_menus(bar_plan(s, 0, chain).1);
    let ids = top_ids(chain);
    assert forall|i: int|
        0 <= i < ids.len() && (forall|j: int| i < j < ids.len() ==> ids[j] != ids[i])
        implies #[trigger] lookup_id(r, ids[i]) == Some(b[i].0) by {
        let k = s.menu_ids.len() + i;
        assert(r[k].0 == ids[i]);
        assert forall|j: int| k < j < r.len() implies (#[trigger] r[j]).0 != ids[i] by {
            let jj = j - s.menu_ids.len();
            assert(r[s.menu_ids.len() + jj].0 == ids[jj]);
        }
        lemma_lookup_latest(r, ids[i], k);
    }
}

/// An entry that adding entries to menu `menu` from index `idx` on leaves
/// alone, when `n` menus exist: one before `idx` in that menu, or one in
/// another menu that already exists.
pub open spec fn kept_key(k: EntryKey, menu: usize, idx: usize, n: nat) -> bool {
    (k.0 == menu && k.1 < idx) || (k.0 != menu && k.0 < n)
}

/// Adding an entry at `(menu, idx)` leaves the tags of every other entry
/// of the menus that already exist as they were.
proof fn lemma_entry_keeps_keys(s: BarView, menu: usize, idx: usize, pos: Option<i32>, e: MenuView)
    requires
        s.num_menus + menu_size(e) <= usize::MAX,
    ensures
        s.num_menus <= entry_plan(s, menu, idx, pos, e).0.num_menus <= s.num_menus + entry_size(e),
        forall|k: EntryKey|
            k.0 < s.num_menus && k != (menu, idx) ==> (#[trigger] entry_plan(s, menu, idx, pos, e).0.tags.entry_tags.contains_key(k)
                == s.tags.entry_tags.contains_key(k)) && (s.tags.entry_tags.contains_key(k)
                ==> entry_plan(s, menu, idx, pos, e).0.tags.entry_tags[k] == s.tags.entry_tags[k]),
    decreases e, 0nat,
{
    match e {
        MenuView::Command(_, t, _, _) => law_register_keeps_states(s.tags, (menu, idx), t),
        MenuView::CheckButton(_, t, _, _) => law_register_keeps_states(s.tags, (menu, idx), t),
        MenuView::RadioButton(_, t, _, _) => law_register_keeps_states(s.tags, (menu, idx), t),
        MenuView::Cascade(n, t, _, tear, ents, _) => {
            law_register_keeps_states(s.tags, (menu, idx), t);
            let sub = s.num_menus as usize;
            let s1 = with_entry(BarView { num_menus: s.num_menus + 1, ..s }, (menu, idx), t);
            lemma_chain_keeps_keys(s1, sub, first_index(tear), *ents);
            let r = chain_plan(s1, sub, first_index(tear), *ents).0;
            assert forall|k: EntryKey| k.0 < s.num_menus && k != (menu, idx) implies (#[trigger] r.tags.entry_tags.contains_key(k)
                == s.tags.entry_tags.contains_key(k)) && (s.tags.entry_tags.contains_key(k)
                ==> r.tags.entry_tags[k] == s.tags.entry_tags[k]) by {
                assert(kept_key(k, sub, first_index(tear), s1.num_menus));
            }
        },
        _ => {},
    }
}

/// Adding entries to menu `menu` from index `idx` on leaves the tags of
/// the entries it does not reach as they were.
proof fn lemma_chain_keeps_keys(s: BarView, menu: usize, idx: usize, chain: MenuView)
    requires
        s.num_menus + menu_size(chain) <= usize::MAX,
        menu < s.num_menus,
        idx + menu_size(chain) <= usize::MAX,
    ensures
        s.num_menus <= chain_plan(s, menu, idx, chain).0.num_menus <= s.num_menus + menu_size(chain),
        forall|k: EntryKey|
            kept_key(k, menu, idx, s.num_menus) ==> (#[trigger] chain_plan(s, menu, idx, chain).0.tags.entry_tags.contains_key(k)
                == s.tags.entry_tags.contains_key(k)) && (s.tags.entry_tags.contains_key(k)
                ==> chain_plan(s, menu, idx, chain).0.tags.entry_tags[k] == s.tags.entry_tags[k]),
    decreases chain, 1nat,
{
    let next = chain_next(chain);
    match chain {
        MenuView::Menu(..) => {},
        MenuView::Nil => {},
        _ => {
            let n = next->0;
            let i1 = (idx + 1) as usize;
            lemma_entry_keeps_keys(s, menu, idx, None, chain);
            let r1 = entry_plan(s, menu, idx, None, chain);
            lemma_chain_keeps_keys(r1.0, menu, i1, n);
            let r2 = chain_plan(r1.0, menu, i1, n);
            assert(chain_plan(s, menu, idx, chain).0 == r2.0);
            assert forall|k: EntryKey| kept_key(k, menu, idx, s.num_menus) implies (#[trigger] r2.0.tags.entry_tags.contains_key(k)
                == s.tags.entry_tags.contains_key(k)) && (s.tags.entry_tags.contains_key(k)
                ==> r2.0.tags.entry_tags[k] == s.tags.entry_tags[k]) by {
                assert(i1 == idx + 1);
                assert(kept_key(k, menu, i1, r1.0.num_menus));
                assert(r2.0.tags.entry_tags.contains_key(k) == r1.0.tags.entry_tags.contains_key(k));
                assert(k.0 < s.num_menus && k != (menu, idx));
                assert(r1.0.tags.entry_tags.contains_key(k) == s.tags.entry_tags.contains_key(k));
                if s.tags.entry_tags.contains_key(k) {
                    assert(r2.0.tags.entry_tags[k] == r1.0.tags.entry_tags[k]);
                    assert(r1.0.tags.entry_tags[k] == s.tags.entry_tags[k]);
                }
            }
        },
    }
}

/// When a list of entries starts with a command, check button or radio
/// button, that entry is registered with its own tags at the index the
/// list starts from.
proof fn lemma_chain_first_entry(s: BarView, menu: usize, idx: usize, chain: MenuView)
    requires
        is_plain_item(chain),
        s.num_menus + menu_size(chain) <= usize::MAX,
        menu < s.num_menus,
        idx + menu_size(chain) <= usize::MAX,
    ensures
        chain_plan(s, menu, idx, chain).0.tags.entry_tags.contains_key((menu, idx)),
        chain_plan(s, menu, idx, chain).0.tags.entry_tags[(menu, idx)] == split_spaces(own_tags(chain)),
{
    let n = chain_next(chain)->0;
    let i1 = (idx + 1) as usize;
    law_entry_registers_own_index(s, menu, idx, None, chain);
    let r1 = entry_plan(s, menu, idx, None, chain);
    lemma_chain_keeps_keys(r1.0, menu, i1, n);
    assert(kept_key((menu, idx), menu, i1, r1.0.num_menus));
    assert(chain_plan(s, menu, idx, chain).0 == chain_plan(r1.0, menu, i1, n).0);
}

/// Adding a cascade creates its menu with the cascade's tear-off choice,
/// and registers the menu's entries from index 1 when it has a tear-off
/// line (which takes index 0), else from index 0.
pub proof fn law_cascade_entries_start(s: BarView, menu: usize, idx: usize, pos: Option<i32>, e: MenuView)
    requires
        e is Cascade,
        is_plain_item(*e->Cascade_4),
        s.num_menus + menu_size(e) + 2 <= usize::MAX,
    ensures
        entry_plan(s, menu, idx, pos, e).1[0] == ActionView::NewMenu(s.num_menus as usize, menu, e->Cascade_3),
        entry_plan(s, menu, idx, pos, e).0.tags.entry_tags[(
            s.num_menus as usize,
            if e->Cascade_3 { 1usize } else { 0usize },
        )] == split_spaces(own_tags(*e->Cascade_4)),
{
    if let MenuView::Cascade(n, t, _, tear, ents, _) = e {
        let sub = s.num_menus as usize;
        let s1 = with_entry(BarView { num_menus: s.num_menus + 1, ..s }, (menu, idx), t);
        lemma_chain_first_entry(s1, sub, first_index(tear), *ents);
    }
}

/// Building a menu bar whose first top-level menu starts with a command,
/// check button or radio button registers that entry, with its own tags,
/// at index 1 of the menu created for it when that menu has a tear-off
/// line, else at index 0; later menus leave it alone.
pub proof fn law_menubar_entries_start(s: BarView, idx: usize, chain: MenuView)
    requires
        chain is Menu,
        is_plain_item(*chain->Menu_4),
        s.num_menus >= 1,
        s.num_menus + menu_size(chain) + 2 <= usize::MAX,
    ensures
        bar_plan(s, idx, chain).0.tags.entry_tags[(
            s.num_menus as usize,
            if chain->Menu_3 { 1usize } else { 0usize },
        )] == split_spaces(own_tags(*chain->Menu_4)),
{
    if let MenuView::Menu(n, t, id, tear, ents, next) = chain {
        let sub = s.num_menus as usize;
        let s1 = with_entry(
            BarView { num_menus: s.num_menus + 1, menu_ids: s.menu_ids.push((id, sub)), ..s },
            (0usize, idx),
            t,
        );
        lemma_chain_first_entry(s1, sub, first_index(tear), *ents);
        let r1 = chain_plan(s1, sub, first_index(tear), *ents);
        lemma_chain_keeps_keys(s1, sub, first_index(tear), *ents);
        let i1 = (#[verifier::truncate] ((idx + 1) as usize));
        lemma_bar_keeps_keys(r1.0, i1, *next);
        let key = (sub, first_index(tear));
        assert(key.0 != 0 && key.0 < r1.0.num_menus);
        assert(r1.0.tags.entry_tags.contains_key(key));
        assert(bar_plan(s, idx, chain).0 == bar_plan(r1.0, i1, *next).0);
        assert(bar_plan(r1.0, i1, *next).0.tags.entry_tags.contains_key(key));
        assert(key == (s.num_menus as usize, if tear { 1usize } else { 0usize }));
    }
}

/// Building the rest of a menu bar leaves the entries of the menus other
/// than the bar that already exist as they were.
proof fn lemma_bar_keeps_keys(s: BarView, idx: usize, chain: MenuView)
    requires
        s.num_menus >= 1,
        s.num_menus + menu_size(chain) <= usize::MAX,
    ensures
        s.num_menus <= bar_plan(s, idx, chain).0.num_menus,
        forall|k: EntryKey|
            k.0 != 0 && k.0 < s.num_menus ==> (#[trigger] bar_plan(s, idx, chain).0.tags.entry_tags.contains_key(k)
                == s.tags.entry_tags.contains_key(k)) && (s.tags.entry_tags.contains_key(k)
                ==> bar_plan(s, idx, chain).0.tags.entry_tags[k] == s.tags.entry_tags[k]),
    decreases chain,
{
    if let MenuView::Menu(n, t, id, tear, ents, next) = chain {
        let sub = s.num_menus as usize;
        law_register_keeps_states(s.tags, (0usize, idx), t);
        let s1 = with_entry(
            BarView { num_menus: s.num_menus + 1, menu_ids: s.menu_ids.push((id, sub)), ..s },
            (0usize, idx),
            t,
        );
        lemma_chain_keeps_keys(s1, sub, first_index(tear), *ents);
        let r1 = chain_plan(s1, sub, first_index(tear), *ents);
        let i1 = (#[verifier::truncate] ((idx + 1) as usize));
        lemma_bar_keeps_keys(r1.0, i1, *next);
        let r2 = bar_plan(r1.0, i1, *next);
        assert forall|k: EntryKey| k.0 != 0 && k.0 < s.num_menus implies (#[trigger] r2.0.tags.entry_tags.contains_key(k)
            == s.tags.entry_tags.contains_key(k)) && (s.tags.entry_tags.contains_key(k)
            ==> r2.0.tags.entry_tags[k] == s.tags.entry_tags[k]) by {
            assert(kept_key(k, sub, first_index(tear), s1.num_menus));
        }
    }
}

/// Inserting a command, check button or radio button at an index from
/// the menu's first entry up to its end puts it at that very index: the
/// one step inserts it there and its tags are registered there. An index
/// past the end puts it at the end.
pub proof fn law_insert_lands_at_index(s: BarView, m: usize, index: i32, first: usize, count: usize, e: MenuView)
    requires
        is_plain_item(e),
        keys_shiftable(s.tags, m),
    ensures
        first <= index <= count ==> {
            let r = insert_plan(s, m, insert_pos(index, first, count), e);
            &&& r.1.len() == 1
            &&& r.1[0] matches ActionView::Entry(mm, pos, _, _, _, _) && mm == m && pos == Some(index)
            &&& r.0.tags.entry_tags.contains_key((m, index as usize))
            &&& r.0.tags.entry_tags[(m, index as usize)] == split_spaces(own_tags(e))
        },
        first <= count < index ==> {
            let r = insert_plan(s, m, insert_pos(index, first, count), e);
            &&& r.1.len() == 1
            &&& r.1[0] matches ActionView::Entry(mm, pos, _, _, _, _) && mm == m && pos == Some(count as i32)
            &&& r.0.tags.entry_tags.contains_key((m, count))
            &&& r.0.tags.entry_tags[(m, count)] == split_spaces(own_tags(e))
        },
{
    let p = insert_pos(index, first, count);
    law_entry_registers_own_index(shift_bar(s, m, p), m, p, Some(p as i32), e);
    if first <= index <= count {
        assert(p == index);
        assert(p as i32 == index);
    }
    if first <= count < index {
        assert(p == count);
    }
}

/// Whether `m` is a list of entries.
pub fn is_entry_list(m: &MenuType) -> (r: bool)
    ensures
        r == entries_ok(m@),
    decreases m,
{
    match m {
        MenuType::Menu(..) => false,
        MenuType::Command(_, _, _, n) => is_entry_list(n),
        MenuType::Cascade(_, _, _, _, e, n) => is_entry_list(e) && is_entry_list(n),
        MenuType::CheckButton(_, _, _, n) => is_entry_list(n),
        MenuType::RadioButton(_, _, _, n) => is_entry_list(n),
        MenuType::Separator(n) => is_entry_list(n),
        MenuType::Nil => true,
    }
}

/// Whether `m` is a menu bar.
pub fn is_menubar(m: &MenuType) -> (r: bool)
    ensures
        r == menubar_ok(m@),
    decreases m,
{
    match m {
        MenuType::Menu(_, _, _, _, e, n) => is_entry_list(e) && is_menubar(n),
        MenuType::Nil => true,
        _ => false,
    }
}

/// Whether `m` can be added as a single entry.
pub fn is_entry(m: &MenuType) -> (r: bool)
    ensures
        r == entry_ok(m@),
{
    match m {
        MenuType::Cascade(_, _, _, _, e, _) => is_entry_list(e),
        _ => true,
    }
}

fn add_capped(a: usize, b: usize) -> (r: usize)
    ensures
        r == (if a + b <= usize::MAX { (a + b) as usize } else { usize::MAX }),
{
    match a.checked_add(b) {
        Some(c) => c,
        None => usize::MAX,
    }
}

/// The size of a menu specification, or `usize::MAX` if it is larger.
pub fn menu_size_capped(m: &MenuType) -> (r: usize)
    ensures
        r == (if menu_size(m@) <= usize::MAX { menu_size(m@) as usize } else { usize::MAX }),
    decreases m,
{
    match m {
        MenuType::Menu(_, _, _, _, e, n) => add_capped(1, add_capped(menu_size_capped(e), menu_size_capped(n))),
        MenuType::Command(_, _, _, n) => add_capped(1, menu_size_capped(n)),
        MenuType::Cascade(_, _, _, _, e, n) => add_capped(1, add_capped(menu_size_capped(e), menu_size_capped(n))),
        MenuType::CheckButton(_, _, _, n) => add_capped(1, menu_size_capped(n)),
        MenuType::RadioButton(_, _, _, n) => add_capped(1, menu_size_capped(n)),
        MenuType::Separator(n) => add_capped(1, menu_size_capped(n)),
        MenuType::Nil => 0,
    }
}

/// The number of entries a single added entry creates: a cascade creates a
/// menu and what its entries create.
pub open spec fn entry_size(m: MenuView) -> nat {
    match m {
        MenuView::Cascade(_, _, _, _, e, _) => 1 + menu_size(*e),
        _ => 0,
    }
}

/// Whether `e` adds an item to a menu: a top-level menu or the end of a
/// list adds none.
pub open spec fn adds_item(e: MenuView) -> bool {
    !(e is Menu) && !(e is Nil)
}

/// Whether `e` adds an item to a menu.
pub fn adds_entry(e: &MenuType) -> (r: bool)
    ensures
        r == adds_item(e@),
{
    match e {
        MenuType::Menu(..) => false,
        MenuType::Nil => false,
        _ => true,
    }
}

/// The tags an entry is registered with.
pub open spec fn own_tags(e: MenuView) -> Seq<char> {
    match e {
        MenuView::Command(_, t, _, _) => t,
        MenuView::Cascade(_, t, _, _, _, _) => t,
        MenuView::CheckButton(_, t, _, _) => t,
        MenuView::RadioButton(_, t, _, _) => t,
        _ => Seq::empty(),
    }
}

/// A command, check button or radio button: an entry that opens no menu.
pub open spec fn is_plain_item(e: MenuView) -> bool {
    e is Command || e is CheckButton || e is RadioButton
}

/// The index at which an insertion at `index` lands in a menu of `count`
/// entries whose first entry stands at `first` (after a tear-off line, if
/// there is one): an index before `first` means the first entry's place,
/// an index past the end the end.
pub open spec fn insert_pos(index: i32, first: usize, count: usize) -> usize {
    if (index as int) < (first as int) {
        first
    } else if index as int > count as int {
        count
    } else {
        index as usize
    }
}

/// The menus once an entry is inserted at index `p` of menu `menu`: the
/// entries from `p` on have moved down by one.
pub open spec fn shift_bar(s: BarView, menu: usize, p: usize) -> BarView {
    BarView { tags: shift_view(s.tags, menu, p), ..s }
}

/// What inserting entry `e` at index `p` of menu `menu` does: the entries
/// from `p` on move down, and `e` is added at `p`.
pub open spec fn insert_plan(s: BarView, menu: usize, p: usize, e: MenuView) -> (BarView, Seq<ActionView>) {
    if adds_item(e) {
        entry_plan(shift_bar(s, menu, p), menu, p, Some(p as i32), e)
    } else {
        (s, Seq::empty())
    }
}

/// What adding `e` to the menu recorded under `menuid` needs: a single
/// entry, and room for the menus it creates.
pub open spec fn add_ready(s: BarView, menuid: Seq<char>, e: MenuView) -> bool {
    lookup_id(s.menu_ids, menuid) is Some ==> entry_ok(e) && s.num_menus + menu_size(e) + 2 <= usize::MAX
}

/// What inserting `e` at `index` into the menu recorded under `menuid`
/// needs: what adding it needs, room for that menu's entries to move down,
/// and an index that is not negative when an item is added (a menu refuses
/// a negative insertion index).
pub open spec fn insert_ready(s: BarView, menuid: Seq<char>, index: i32, e: MenuView) -> bool {
    lookup_id(s.menu_ids, menuid) matches Some(m) ==> entry_ok(e) && s.num_menus + menu_size(e) + 2 <= usize::MAX
        && keys_shiftable(s.tags, m) && (adds_item(e) ==> index >= 0)
}

/// Adding a command, check button or radio button registers it, with its
/// own tags, at the index it is given, and changes no other entry's tags.
pub proof fn law_entry_registers_own_index(s: BarView, menu: usize, idx: usize, pos: Option<i32>, e: MenuView)
    requires
        is_plain_item(e),
    ensures
        entry_plan(s, menu, idx, pos, e).0.tags.entry_tags == s.tags.entry_tags.insert((menu, idx), split_spaces(own_tags(e))),
        entry_plan(s, menu, idx, pos, e).0.menu_ids == s.menu_ids,
        entry_plan(s, menu, idx, pos, e).0.num_menus == s.num_menus,
{
    law_register_keeps_states(s.tags, (menu, idx), own_tags(e));
}

/// Inserting a command, check button or radio button at index `p` of a
/// menu registers it at `p` with its own tags, while every entry
/// registered before keeps its tags at its new place.
pub proof fn law_insert_keeps_entries(s: BarView, menu: usize, p: usize, e: MenuView)
    requires
        is_plain_item(e),
        keys_shiftable(s.tags, menu),
    ensures
        insert_plan(s, menu, p, e).0.tags.entry_tags[(menu, p)] == split_spaces(own_tags(e)),
        forall|k: EntryKey|
            #![trigger shift_key(k, menu, p)]
            s.tags.entry_tags.contains_key(k) ==> insert_plan(s, menu, p, e).0.tags.entry_tags.contains_key(
                shift_key(k, menu, p),
            ) && insert_plan(s, menu, p, e).0.tags.entry_tags[shift_key(k, menu, p)] == s.tags.entry_tags[k],
{
    law_shift_keeps_entries(s.tags, menu, p);
    law_entry_registers_own_index(shift_bar(s, menu, p), menu, p, Some(p as i32), e);
}

/// The menus of a main frame: the menu bar and the menus below it, by
/// number, the ids of the top-level menus, and the tags of all entries.
pub struct MenuBar {
    tags: MenuTags,
    menu_ids: NameTable,
    num_menus: usize,
}

impl View for MenuBar {
    type V = BarView;

    closed spec fn view(&self) -> BarView {
        BarView {
            tags: self.tags.view(),
            menu_ids: self.menu_ids@,
            num_menus: self.num_menus as nat,
        }
    }
}

impl MenuBar {
    pub closed spec fn wf(&self) -> bool {
        self.tags.wf()
    }

    /// A menu bar with no menus yet: only menu 0, the bar itself.
    pub fn new() -> (r: Self)
        ensures
            r.wf(),
            r@.num_menus == 1,
            r@.menu_ids.len() == 0,
            r@.tags.tag_states.is_empty(),
            r@.tags.tag_entries.is_empty(),
            r@.tags.entry_tags.is_empty(),
    {
        let r = MenuBar { tags: MenuTags::new(), menu_ids: NameTable::new(), num_menus: 1 };
        assert(r@.menu_ids =~= Seq::empty());
        r
    }

    fn register(&mut self, key: EntryKey, tags: &String)
        requires
            old(self).wf(),
        ensures
            final(self).wf(),
            final(self)@ == with_entry(old(self)@, key, tags@),
    {
        self.tags.register(key, tags.as_str());
        proof {
            assert(self@.menu_ids =~= old(self)@.menu_ids);
        }
    }

    fn plan_entry(&mut self, acts: &mut Vec<MenuAction>, menu: usize, idx: usize, pos: Option<i32>, e: &MenuType)
        requires
            old(self).wf(),
            entry_ok(e@),
            old(self)@.num_menus + menu_size(e@) + 2 <= usize::MAX,
        ensures
            final(self).wf(),
            final(self)@ == entry_plan(old(self)@, menu, idx, pos, e@).0,
            actions_view(final(acts)@) == actions_view(old(acts)@) + entry_plan(old(self)@, menu, idx, pos, e@).1,
            old(self)@.num_menus <= final(self)@.num_menus <= old(self)@.num_menus + entry_size(e@),
        decreases e, 0nat,
    {
        let ghost a0 = actions_view(acts@);
        match e {
            MenuType::Command(n, t, _, _) => {
                let (lab, under) = parse_name(n.as_str());
                acts.push(MenuAction::Entry { menu, position: pos, kind: EntryKind::Command, label: lab, underline: under, submenu: None });
                self.register((menu, idx), t);
            },
            MenuType::CheckButton(n, t, _, _) => {
                let (lab, under) = parse_name(n.as_str());
                acts.push(MenuAction::Entry { menu, position: pos, kind: EntryKind::CheckButton, label: lab, underline: under, submenu: None });
                self.register((menu, idx), t);
            },
            MenuType::RadioButton(n, t, _, _) => {
                let (lab, under) = parse_name(n.as_str());
                acts.push(MenuAction::Entry { menu, position: pos, kind: EntryKind::RadioButton, label: lab, underline: under, submenu: None });
                self.register((menu, idx), t);
            },
            MenuType::Cascade(n, t, _, tear, ents, _) => {
                let (lab, under) = parse_name(n.as_str());
                let sub = self.num_menus;
                self.num_menus = sub + 1;
                acts.push(MenuAction::NewMenu { menu: sub, parent: menu, tearoff: *tear });
                acts.push(MenuAction::Entry { menu, position: pos, kind: EntryKind::Cascade, label: lab, underline: under, submenu: Some(sub) });
                self.register((menu, idx), t);
                let ghost a1 = actions_view(acts@);
                let first: usize = if *tear { 1 } else { 0 };
                self.plan_chain(acts, sub, first, ents);
                proof {
                    assert(a1 =~= a0 + seq![
                        ActionView::NewMenu(sub, menu, *tear),
                        entry_action(menu, pos, EntryKind::Cascade, n@, Some(sub)),
                    ]);
                    assert(actions_view(acts@) =~= a0 + entry_plan(old(self)@, menu, idx, pos, e@).1);
                }
            },
            MenuType::Separator(_) => {
                acts.push(MenuAction::Entry { menu, position: pos, kind: EntryKind::Separator, label: String::new(), underline: None, submenu: None });
                proof {
                    assert(self@ =~= old(self)@);
                }
            },
            _ => {
                proof {
                    assert(self@ =~= old(self)@);
                }
            },
        }
        proof {
            assert(actions_view(acts@) =~= a0 + entry_plan(old(self)@, menu, idx, pos, e@).1);
        }
    }

    fn plan_chain(&mut self, acts: &mut Vec<MenuAction>, menu: usize, idx: usize, chain: &MenuType)
        requires
            old(self).wf(),
            entries_ok(chain@),
            old(self)@.num_menus + menu_size(chain@) + 2 <= usize::MAX,
            idx + menu_size(chain@) + 2 <= usize::MAX,
        ensures
            final(self).wf(),
            final(self)@ == chain_plan(old(self)@, menu, idx, chain@).0,
            actions_view(final(acts)@) == actions_view(old(acts)@) + chain_plan(old(self)@, menu, idx, chain@).1,
            old(self)@.num_menus <= final(self)@.num_menus <= old(self)@.num_menus + menu_size(chain@),
        decreases chain, 1nat,
    {
        let ghost a0 = actions_view(acts@);
        let next: &MenuType = match chain {
            MenuType::Command(_, _, _, n) => n,
            MenuType::Cascade(_, _, _, _, _, n) => n,
            MenuType::CheckButton(_, _, _, n) => n,
            MenuType::RadioButton(_, _, _, n) => n,
            MenuType::Separator(n) => n,
            _ => {
                proof {
                    assert(actions_view(acts@) =~= a0 + Seq::<ActionView>::empty());
                }
                return;
            },
        };
        self.plan_entry(acts, menu, idx, None, chain);
        let ghost a1 = actions_view(acts@);
        self.plan_chain(acts, menu, idx + 1, next);
        proof {
            assert(actions_view(acts@) =~= a0 + chain_plan(old(self)@, menu, idx, chain@).1);
        }
    }

    fn plan_bar(&mut self, acts: &mut Vec<MenuAction>, idx: usize, chain: &MenuType)
        requires
            old(self).wf(),
            menubar_ok(chain@),
            old(self)@.num_menus + menu_size(chain@) + 2 <= usize::MAX,
            idx + menu_size(chain@) + 2 <= usize::MAX,
        ensures
            final(self).wf(),
            final(self)@ == bar_plan(old(self)@, idx, chain@).0,
            actions_view(final(acts)@) == actions_view(old(acts)@) + bar_plan(old(self)@, idx, chain@).1,
            old(self)@.num_menus <= final(self)@.num_menus <= old(self)@.num_menus + menu_size(chain@),
        decreases chain,
    {
        let ghost a0 = actions_view(acts@);
        match chain {
            MenuType::Menu(n, t, id, tear, ents, next) => {
                let (lab, under) = parse_name(n.as_str());
                let sub = self.num_menus;
                self.num_menus = sub + 1;
                acts.push(MenuAction::NewMenu { menu: sub, parent: 0, tearoff: *tear });
                self.menu_ids.insert(id.as_str(), sub);
                proof {
                    assert(self@.menu_ids =~= old(self)@.menu_ids.push((id@, sub)));
                }
                acts.push(MenuAction::Entry { menu: 0, position: None, kind: EntryKind::Cascade, label: lab, underline: under, submenu: Some(sub) });
                self.register((0, idx), t);
                let first: usize = if *tear { 1 } else { 0 };
                self.plan_chain(acts, sub, first, ents);
                self.plan_bar(acts, idx + 1, next);
                proof {
                    assert(actions_view(acts@) =~= a0 + bar_plan(old(self)@, idx, chain@).1);
                }
            },
            _ => {
                proof {
                    assert(actions_view(acts@) =~= a0 + Seq::<ActionView>::empty());
                }
            },
        }
    }

    /// Builds the menu bar from a specification: the actions that create
    /// its menus and entries, in order, while every top-level menu is
    /// recorded under its menu id and every entry under its tags.
    pub fn create_menubar(&mut self, spec: &MenuType) -> (acts: Vec<MenuAction>)
        requires
            old(self).wf(),
            menubar_ok(spec@),
            old(self)@.num_menus + menu_size(spec@) + 2 <= usize::MAX,
        ensures
            final(self).wf(),
            (final(self)@, actions_view(acts@)) == bar_plan(old(self)@, 0, spec@),
    {
        let mut acts: Vec<MenuAction> = Vec::new();
        proof {
            assert(actions_view(acts@) =~= Seq::<ActionView>::empty());
        }
        self.plan_bar(&mut acts, 0, spec);
        proof {
            assert(actions_view(acts@) =~= bar_plan(old(self)@, 0, spec@).1);
        }
        acts
    }

    /// The menu most recently created under `menuid`.
    pub fn getmenu(&self, menuid: &str) -> (r: Option<usize>)
        ensures
            r == lookup_id(self@.menu_ids, menuid@),
    {
        self.menu_ids.get(menuid)
    }

    /// Adds one entry at the end of the menu recorded under `menuid`; `count`
    /// is the number of entries that menu holds (a tear-off line counts),
    /// which is the index the new entry gets, and its tags are registered
    /// there. Nothing happens for an unknown id. Only `entry`'s own item is
    /// added, not the items after it.
    pub fn menu_add(&mut self, menuid: &str, count: usize, entry: &MenuType) -> (r: Option<Vec<MenuAction>>)
        requires
            old(self).wf(),
            add_ready(old(self)@, menuid@, entry@),
        ensures
            final(self).wf(),
            lookup_id(old(self)@.menu_ids, menuid@) is None ==> r is None && final(self)@ == old(self)@,
            lookup_id(old(self)@.menu_ids, menuid@) matches Some(m) ==> r matches Some(acts) && (final(self)@, actions_view(acts@))
                == entry_plan(old(self)@, m, count, None, entry@),
    {
        match self.getmenu(menuid) {
            None => None,
            Some(m) => {
                let mut acts: Vec<MenuAction> = Vec::new();
                proof {
                    assert(actions_view(acts@) =~= Seq::<ActionView>::empty());
                }
                self.plan_entry(&mut acts, m, count, None, entry);
                proof {
                    assert(actions_view(acts@) =~= entry_plan(old(self)@, m, count, None, entry@).1);
                }
                Some(acts)
            },
        }
    }

    /// Inserts one entry at `index` in the menu recorded under `menuid`,
    /// which holds `count` entries (a tear-off line counts) from index
    /// `first` on (1 after a tear-off line, else 0). The index must not be
    /// negative when an item is added; an index before `first` inserts at
    /// `first`, an index past the end appends. The entries
    /// from that index on move down by one, keeping their tags, and the new
    /// entry's tags are registered at its own index. Nothing happens for an
    /// unknown id, nor for an entry that adds no item.
    pub fn menu_insert(&mut self, menuid: &str, index: i32, first: usize, count: usize, entry: &MenuType) -> (r: Option<Vec<MenuAction>>)
        requires
            old(self).wf(),
            insert_ready(old(self)@, menuid@, index, entry@),
        ensures
            final(self).wf(),
            lookup_id(old(self)@.menu_ids, menuid@) is None ==> r is None && final(self)@ == old(self)@,
            lookup_id(old(self)@.menu_ids, menuid@) matches Some(m) ==> r matches Some(acts) && (final(self)@, actions_view(acts@))
                == insert_plan(old(self)@, m, insert_pos(index, first, count), entry@),
    {
        match self.getmenu(menuid) {
            None => None,
            Some(m) => {
                let p: usize = if index < 0 || (index as usize) < first {
                    first
                } else if index as usize > count {
                    count
                } else {
                    index as usize
                };
                let mut acts: Vec<MenuAction> = Vec::new();
                proof {
                    assert(actions_view(acts@) =~= Seq::<ActionView>::empty());
                }
                if adds_entry(entry) {
                    self.tags.shift_entries(m, p);
                    proof {
                        assert(self@ =~= shift_bar(old(self)@, m, p));
                    }
                    self.plan_entry(&mut acts, m, p, Some(p as i32), entry);
                    proof {
                        assert(actions_view(acts@) =~= insert_plan(old(self)@, m, p, entry@).1);
                    }
                }
                Some(acts)
            },
        }
    }

    /// Whether every registered entry of the menu recorded under `menuid`
    /// can move down by one index, as an insertion needs.
    pub fn can_shift(&self, menuid: &str) -> (r: bool)
        requires
            self.wf(),
        ensures
            r == (lookup_id(self@.menu_ids, menuid@) matches Some(m) ==> keys_shiftable(self@.tags, m)),
    {
        match self.getmenu(menuid) {
            None => true,
            Some(m) => self.tags.can_shift(m),
        }
    }

    /// Sets the state of `tag`; gives each entry listed under it, in order,
    /// with whether it is now enabled: exactly when all its tags are.
    pub fn setmenustate(&mut self, tag: &str, state: StateType) -> (r: Vec<(EntryKey, bool)>)
        requires
            old(self).wf(),
        ensures
            final(self).wf(),
            final(self)@.menu_ids == old(self)@.menu_ids,
            final(self)@.num_menus == old(self)@.num_menus,
            !old(self)@.tags.tag_states.contains_key(tag@) ==> final(self)@ == old(self)@ && r@.len() == 0,
            old(self)@.tags.tag_states.contains_key(tag@) ==> {
                let v = final(self)@.tags;
                &&& v == set_state_view(old(self)@.tags, tag@, state == StateType::Normal)
                &&& r@.len() == v.tag_entries[tag@].len()
                &&& forall|i: int|
                    0 <= i < r@.len() ==> #[trigger] r@[i].0 == v.tag_entries[tag@][i]
                        && r@[i].1 == crate::menutags::all_enabled(v.tag_states, v.entry_tags[r@[i].0])
            },
    {
        let r = self.tags.setmenustate(tag, state);
        proof {
            assert(self@.menu_ids =~= old(self)@.menu_ids);
            assert(self@.tags == self.tags.view());
            assert(old(self)@.tags == old(self).tags.view());
            if old(self)@.tags.tag_states.contains_key(tag@) {
                let v = self@.tags;
                assert(old(self).tags.view().tag_states.contains_key(tag@));
                assert(v.tag_entries[tag@].len() == r@.len());
                assert forall|i: int| 0 <= i < r@.len() implies #[trigger] r@[i].0 == v.tag_entries[tag@][i]
                    && r@[i].1 == crate::menutags::all_enabled(v.tag_states, v.entry_tags[r@[i].0]) by {
                    assert(r@[i].0 == self.tags.view().tag_entries[tag@][i]);
                }
            }
        }
        r
    }

    /// Whether there is room for the menus that `m` creates.
    pub fn has_room_for(&self, m: &MenuType) -> (r: bool)
        ensures
            r == (self@.num_menus + menu_size(m@) + 2 <= usize::MAX),
    {
        let size = menu_size_capped(m);
        size <= usize::MAX - 2 && self.num_menus <= usize::MAX - 2 - size
    }
}

} // verus!
