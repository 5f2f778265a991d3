use vstd::prelude::*;

verus! {

/// A menu bar specification, written as linked lists of entries.
/// Each variant's last field is the next item in the same list.
#[derive(PartialEq, Debug)]
pub enum MenuType {
    /// name, tags, menu id, tearoff, entries, next
    Menu(String, String, String, bool, Box<MenuType>, Box<MenuType>),
    /// name, tags, accelerator, next
    Command(String, String, String, Box<MenuType>),
    /// name, tags, accelerator, tearoff, entries, next
    Cascade(String, String, String, bool, Box<MenuType>, Box<MenuType>),
    /// name, tags, accelerator, next
    CheckButton(String, String, String, Box<MenuType>),
    /// name, tags, accelerator, next
    RadioButton(String, String, String, Box<MenuType>),
    /// next
    Separator(Box<MenuType>),
    Nil,
}

/// The mathematical value of a `MenuType`: the same tree with strings as
/// character sequences.
pub enum MenuView {
    Menu(Seq<char>, Seq<char>, Seq<char>, bool, Box<MenuView>, Box<MenuView>),
    Command(Seq<char>, Seq<char>, Seq<char>, Box<MenuView>),
    Cascade(Seq<char>, Seq<char>, Seq<char>, bool, Box<MenuView>, Box<MenuView>),
    CheckButton(Seq<char>, Seq<char>, Seq<char>, Box<MenuView>),
    RadioButton(Seq<char>, Seq<char>, Seq<char>, Box<MenuView>),
    Separator(Box<MenuView>),
    Nil,
}

pub open spec fn menu_view(m: MenuType) -> MenuView
    decreases m,
{
    match m {
        MenuType::Menu(n, t, i, tear, e, next) => MenuView::Menu(
            n@,
            t@,
            i@,
            tear,
            Box::new(menu_view(*e)),
            Box::new(menu_view(*next)),
        ),
        MenuType::Command(n, t, a, next) => MenuView::Command(n@, t@, a@, Box::new(menu_view(*next))),
        MenuType::Cascade(n, t, a, tear, e, next) => MenuView::Cascade(
            n@,
            t@,
            a@,
            tear,
            Box::new(menu_view(*e)),
            Box::new(menu_view(*next)),
        ),
        MenuType::CheckButton(n, t, a, next) => MenuView::CheckButton(
            n@,
            t@,
            a@,
            Box::new(menu_view(*next)),
        ),
        MenuType::RadioButton(n, t, a, next) => MenuView::RadioButton(
            n@,
            t@,
            a@,
            Box::new(menu_view(*next)),
        ),
        MenuType::Separator(next) => MenuView::Separator(Box::new(menu_view(*next))),
        MenuType::Nil => MenuView::Nil,
    }
}

/// A command entry of the standard menus, with no accelerator unless given.
pub open spec fn std_cmd(label: &str, tags: &str, accel: &str, next: MenuView) -> MenuView {
    MenuView::Command(label@, tags@, accel@, Box::new(next))
}

/// A top-level menu of the standard menu bar: never torn off.
pub open spec fn std_top(label: &str, tags: &str, id: &str, entries: MenuView, next: MenuView) -> MenuView {
    MenuView::Menu(label@, tags@, id@, false, Box::new(entries), Box::new(next))
}

/// The Help menu's entries, top to bottom.
pub open spec fn std_help_entries() -> MenuView {
    std_cmd("On &Help...", "help:help", "",
    std_cmd("On &Keys...", "help:keys", "",
    std_cmd("&Index...", "help:index", "",
    std_cmd("&Tutorial...", "help:tutorial", "",
    std_cmd("On &Version", "help:version", "",
    std_cmd("Warranty", "help:warranty", "",
    std_cmd("Copying", "help:copying", "", MenuView::Nil)))))))
}

/// The Edit menu's entries, top to bottom.
pub open spec fn std_edit_entries() -> MenuView {
    std_cmd("&Undo", "edit:undo", "Ctrl z",
    std_cmd("Cu&t", "edit:cut edit:havesel", "Ctrl x",
    std_cmd("&Copy", "edit:copy edit:havesel", "Ctrl c",
    std_cmd("C&lear", "edit:clear edit:havesel", "",
    std_cmd("&Delete", "edit:delete edit:havesel", "Ctrl d",
    MenuView::Separator(Box::new(
    std_cmd("Select All", "edit:selectall", "",
    std_cmd("De-select All", "edit:deselectall edit:havesel", "", MenuView::Nil)))))))))
}

/// The File menu's entries, top to bottom.
pub open spec fn std_file_entries() -> MenuView {
    std_cmd("&New", "file:new", "Ctrl n",
    std_cmd("&Open...", "file:open", "Ctrl o",
    std_cmd("&Save", "file:save", "Ctrl s",
    std_cmd("Save &As...", "file:save", "Ctrl a",
    std_cmd("&Close", "file:close", "",
    std_cmd("E&xit", "file:exit", "", MenuView::Nil))))))
}

/// The standard menu bar: File, Edit, View, Options, Help, in that order;
/// View and Options start empty.
pub open spec fn std_menu_view() -> MenuView {
    std_top("&File", "file:menu", "file", std_file_entries(),
    std_top("&Edit", "edit", "edit", std_edit_entries(),
    std_top("&View", "view", "view", MenuView::Nil,
    std_top("&Options", "options", "options", MenuView::Nil,
    std_top("&Help", "help", "help", std_help_entries(), MenuView::Nil)))))
}

impl View for MenuType {
    type V = MenuView;

    open spec fn view(&self) -> MenuView {
        menu_view(*self)
    }
}

impl Clone for MenuType {
    fn clone(&self) -> (r: Self)
        ensures
            r@ == self@,
        decreases self,
    {
        match self {
            MenuType::Menu(n, t, i, tear, e, next) => MenuType::Menu(
                n.clone(),
                t.clone(),
                i.clone(),
                *tear,
                Box::new((**e).clone()),
                Box::new((**next).clone()),
            ),
            MenuType::Command(n, t, a, next) => MenuType::Command(
                n.clone(),
                t.clone(),
                a.clone(),
                Box::new((**next).clone()),
            ),
            MenuType::Cascade(n, t, a, tear, e, next) => MenuType::Cascade(
                n.clone(),
                t.clone(),
                a.clone(),
                *tear,
                Box::new((**e).clone()),
                Box::new((**next).clone()),
            ),
            MenuType::CheckButton(n, t, a, next) => MenuType::CheckButton(
                n.clone(),
                t.clone(),
                a.clone(),
                Box::new((**next).clone()),
            ),
            MenuType::RadioButton(n, t, a, next) => MenuType::RadioButton(
                n.clone(),
                t.clone(),
                a.clone(),
                Box::new((**next).clone()),
            ),
            MenuType::Separator(next) => MenuType::Separator(Box::new((**next).clone())),
            MenuType::Nil => MenuType::Nil,
        }
    }
}

impl MenuType {
    /// A top-level menu with its entries, followed by `next`.
    pub fn new_menu(label: &str, tag: &str, menuid: &str, tearoff: bool, entries: MenuType, next: MenuType) -> (r: Self)
        ensures
            r@ == MenuView::Menu(label@, tag@, menuid@, tearoff, Box::new(entries@), Box::new(next@)),
    {
        MenuType::Menu(label.to_owned(), tag.to_owned(), menuid.to_owned(), tearoff, Box::new(entries), Box::new(next))
    }

    /// A command entry, followed by `next`.
    pub fn new_command(label: &str, tag: &str, accel: &str, next: MenuType) -> (r: Self)
        ensures
            r@ == MenuView::Command(label@, tag@, accel@, Box::new(next@)),
    {
        MenuType::Command(label.to_owned(), tag.to_owned(), accel.to_owned(), Box::new(next))
    }

    /// A cascade entry holding a sub-menu with `entries`, followed by `next`.
    pub fn new_cascade(label: &str, tag: &str, accel: &str, tearoff: bool, entries: MenuType, next: MenuType) -> (r: Self)
        ensures
            r@ == MenuView::Cascade(label@, tag@, accel@, tearoff, Box::new(entries@), Box::new(next@)),
    {
        MenuType::Cascade(label.to_owned(), tag.to_owned(), accel.to_owned(), tearoff, Box::new(entries), Box::new(next))
    }

    /// A check-button entry, followed by `next`.
    pub fn new_checkbutton(label: &str, tag: &str, accel: &str, next: MenuType) -> (r: Self)
        ensures
            r@ == MenuView::CheckButton(label@, tag@, accel@, Box::new(next@)),
    {
        MenuType::CheckButton(label.to_owned(), tag.to_owned(), accel.to_owned(), Box::new(next))
    }

    /// A radio-button entry, followed by `next`.
    pub fn new_radiobutton(label: &str, tag: &str, accel: &str, next: MenuType) -> (r: Self)
        ensures
            r@ == MenuView::RadioButton(label@, tag@, accel@, Box::new(next@)),
    {
        MenuType::RadioButton(label.to_owned(), tag.to_owned(), accel.to_owned(), Box::new(next))
    }

    /// A separator, followed by `next`.
    pub fn new_separator(next: MenuType) -> (r: Self)
        ensures
            r@ == MenuView::Separator(Box::new(next@)),
    {
        MenuType::Separator(Box::new(next))
    }

    /// The standard menu bar: File, Edit, View, Options and Help.
    pub fn new_std_menu() -> (r: Self)
        ensures
            r@ == std_menu_view(),
    {
        let mut help = Self::new_command("Copying", "help:copying", "", Self::Nil);
        help = Self::new_command("Warranty", "help:warranty", "", help);
        help = Self::new_command("On &Version", "help:version", "", help);
        help = Self::new_command("&Tutorial...", "help:tutorial", "", help);
        help = Self::new_command("&Index...", "help:index", "", help);
        help = Self::new_command("On &Keys...", "help:keys", "", help);
        help = Self::new_command("On &Help...", "help:help", "", help);
        let help_menu = Self::new_menu("&Help", "help", "help", false, help, Self::Nil);
        let options_menu = Self::new_menu("&Options", "options", "options", false, Self::Nil, help_menu);
        let view_menu = Self::new_menu("&View", "view", "view", false, Self::Nil, options_menu);
        let mut edit = Self::new_command("De-select All", "edit:deselectall edit:havesel", "", MenuType::Nil);
        edit = Self::new_command("Select All", "edit:selectall", "", edit);
        edit = Self::new_separator(edit);
        edit = Self::new_command("&Delete", "edit:delete edit:havesel", "Ctrl d", edit);
        edit = Self::new_command("C&lear", "edit:clear edit:havesel", "", edit);
        edit = Self::new_command("&Copy", "edit:copy edit:havesel", "Ctrl c", edit);
        edit = Self::new_command("Cu&t", "edit:cut edit:havesel", "Ctrl x", edit);
        edit = Self::new_command("&Undo", "edit:undo", "Ctrl z", edit);
        let edit_menu = Self::new_menu("&Edit", "edit", "edit", false, edit, view_menu);
        let mut file = Self::new_command("E&xit", "file:exit", "", MenuType::Nil);
        file = Self::new_command("&Close", "file:close", "", file);
        file = Self::new_command("Save &As...", "file:save", "Ctrl a", file);
        file = Self::new_command("&Save", "file:save", "Ctrl s", file);
        file = Self::new_command("&Open...", "file:open", "Ctrl o", file);
        file = Self::new_command("&New", "file:new", "Ctrl n", file);
        Self::new_menu("&File", "file:menu", "file", false, file, edit_menu)
    }
}

} // verus!
