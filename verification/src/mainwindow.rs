use vstd::prelude::*;
use crate::names::{NameTable, lookup_id, first_names};
use crate::text::string_views;
use crate::mainframe::StateType;
use crate::buttonbox::{ButtonKind, ButtonSet};

verus! {

/// Named panes or tool bars, each numbered in the order it was added; a
/// name is added once only.
pub struct NamedSlots {
    names: NameTable,
    count: usize,
}

impl NamedSlots {
    pub closed spec fn names(&self) -> Seq<(Seq<char>, usize)> {
        self.names@
    }

    pub closed spec fn count(&self) -> nat {
        self.count as nat
    }

    pub fn new() -> (r: Self)
        ensures
            r.names().len() == 0,
            r.count() == 0,
    {
        NamedSlots { names: NameTable::new(), count: 0 }
    }

    /// Adds `name` with the next number, which it gives; gives `None` and
    /// changes nothing when `name` is there already.
    pub fn add(&mut self, name: &str) -> (r: Option<usize>)
        requires
            old(self).count() < usize::MAX,
        ensures
            lookup_id(old(self).names(), name@) is Some ==> r is None && final(self).names() == old(self).names()
                && final(self).count() == old(self).count(),
            lookup_id(old(self).names(), name@) is None ==> r == Some(old(self).count() as usize)
                && final(self).names() == old(self).names().push((name@, old(self).count() as usize))
                && final(self).count() == old(self).count() + 1,
    {
        if self.names.contains(name) {
            return None;
        }
        let slot = self.count;
        self.names.insert(name, slot);
        self.count = slot + 1;
        Some(slot)
    }

    /// The number of `name`, if it was added.
    pub fn get(&self, name: &str) -> (r: Option<usize>)
        ensures
            r == lookup_id(self.names(), name@),
    {
        self.names.get(name)
    }

    /// The names added, each once, in the order they were added.
    pub fn list(&self) -> (r: Vec<String>)
        ensures
            string_views(r@) == first_names(self.names()),
    {
        self.names.keys()
    }
}

/// Whether the pane at `path` is among `panes`.
pub fn path_listed(panes: &Vec<String>, path: &str) -> (r: bool)
    ensures
        r == string_views(panes@).contains(path@),
{
    let p = path.to_owned();
    let mut i: usize = 0;
    while i < panes.len()
        invariant
            i <= panes@.len(),
            p@ == path@,
            forall|j: int| 0 <= j < i ==> panes@[j]@ != path@,
        decreases panes@.len() - i,
    {
        if panes[i] == p {
            assert(string_views(panes@)[i as int] == path@);
            return true;
        }
        i = i + 1;
    }
    proof {
        if string_views(panes@).contains(path@) {
            let j = choose|j: int| 0 <= j < panes@.len() && string_views(panes@)[j] == path@;
            assert(panes@[j]@ == path@);
        }
    }
    false
}

/// Where the button box goes back into the paned window: at the end when
/// the main pane is alone (`None`), else before pane 1.
pub fn buttons_position(num_panes: usize) -> (r: Option<usize>)
    ensures
        num_panes == 1 ==> r is None,
        num_panes != 1 ==> r == Some(1usize),
{
    if num_panes == 1 {
        None
    } else {
        Some(1)
    }
}

/// The `-state` value of a state.
pub fn state_name(state: StateType) -> (r: &'static str)
    ensures
        state == StateType::Disabled ==> r@ == "disabled"@,
        state == StateType::Normal ==> r@ == "normal"@,
{
    match state {
        StateType::Disabled => "disabled",
        StateType::Normal => "normal",
    }
}

/// The style of a tool bar button: tool-button style, except for check
/// buttons, which keep their own.
pub fn toolbutton_style(kind: ButtonKind) -> (r: Option<&'static str>)
    ensures
        kind == ButtonKind::Check ==> r is None,
        kind != ButtonKind::Check ==> (r matches Some(s) && s@ == "Toolbutton"@),
{
    match kind {
        ButtonKind::Check => None,
        _ => Some("Toolbutton"),
    }
}

/// The slots of those of `children` that are recorded buttons, in order.
pub open spec fn registered_slots(names: Seq<(Seq<char>, usize)>, children: Seq<Seq<char>>) -> Seq<usize>
    decreases children.len(),
{
    if children.len() == 0 {
        Seq::empty()
    } else {
        let r = registered_slots(names, children.drop_last());
        match lookup_id(names, children.last()) {
            Some(s) => r.push(s),
            None => r,
        }
    }
}

/// The tool buttons among a tool bar's children (given by path), whose
/// state a change of the tool bar's state sets.
pub fn registered_buttons(buttons: &ButtonSet, children: &Vec<String>) -> (r: Vec<usize>)
    requires
        buttons.wf(),
    ensures
        r@ == registered_slots(buttons.names(), string_views(children@)),
{
    let mut out: Vec<usize> = Vec::new();
    let mut i: usize = 0;
    proof {
        assert(string_views(children@).take(0) =~= Seq::<Seq<char>>::empty());
    }
    while i < children.len()
        invariant
            buttons.wf(),
            i <= children@.len(),
            out@ == registered_slots(buttons.names(), string_views(children@).take(i as int)),
        decreases children@.len() - i,
    {
        proof {
            assert(string_views(children@).take(i + 1).drop_last() =~= string_views(children@).take(i as int));
            assert(string_views(children@).take(i + 1).last() == children@[i as int]@);
        }
        match buttons.lookup(children[i].as_str()) {
            Some(s) => {
                out.push(s);
            },
            None => {},
        }
        i = i + 1;
    }
    proof {
        assert(string_views(children@).take(children@.len() as int) =~= string_views(children@));
    }
    out
}

} // verus!
