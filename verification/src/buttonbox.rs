use vstd::prelude::*;
use crate::names::{NameTable, lookup_id};

verus! {

/// Which way a button box lays out its buttons.
#[derive(PartialEq, Eq, Structural, Clone, Copy, Debug)]
pub enum BBOrient {
    Vertical,
    Horizontal,
}

/// Where the buttons sit across the box.
#[derive(PartialEq, Eq, Structural, Clone, Copy, Debug)]
pub enum BAlignment {
    Left,
    Center,
    Right,
}

/// The kind of a button in a button box or a tool bar.
#[derive(PartialEq, Eq, Structural, Clone, Copy, Debug)]
pub enum ButtonKind {
    Plain,
    Check,
    Radio,
    Menu,
}

/// The side buttons are packed against: left to right, or top to bottom.
pub open spec fn side_of(orient: BBOrient) -> Seq<char> {
    match orient {
        BBOrient::Horizontal => "left"@,
        BBOrient::Vertical => "top"@,
    }
}

/// The anchor of each button: along a row, left is west and right is east;
/// down a column, left is north and right is south.
pub open spec fn anchor_of(orient: BBOrient, align: BAlignment) -> Seq<char> {
    match (orient, align) {
        (_, BAlignment::Center) => "center"@,
        (BBOrient::Horizontal, BAlignment::Left) => "w"@,
        (BBOrient::Horizontal, BAlignment::Right) => "e"@,
        (BBOrient::Vertical, BAlignment::Left) => "n"@,
        (BBOrient::Vertical, BAlignment::Right) => "s"@,
    }
}

/// The `-side` a button of the box is packed with.
pub fn pack_side(orient: BBOrient) -> (r: &'static str)
    ensures
        r@ == side_of(orient),
{
    match orient {
        BBOrient::Horizontal => "left",
        BBOrient::Vertical => "top",
    }
}

/// The `-anchor` a button of the box is packed with.
pub fn pack_anchor(orient: BBOrient, align: BAlignment) -> (r: &'static str)
    ensures
        r@ == anchor_of(orient, align),
{
    match orient {
        BBOrient::Horizontal => match align {
            BAlignment::Left => "w",
            BAlignment::Center => "center",
            BAlignment::Right => "e",
        },
        BBOrient::Vertical => match align {
            BAlignment::Left => "n",
            BAlignment::Center => "center",
            BAlignment::Right => "s",
        },
    }
}

/// The buttons of a box by name. Each button gets a slot number, the
/// number of buttons added before it; a name added again now denotes the
/// newer button.
pub struct ButtonSet {
    names: NameTable,
    kinds: Vec<ButtonKind>,
}

impl ButtonSet {
    pub closed spec fn names(&self) -> Seq<(Seq<char>, usize)> {
        self.names@
    }

    pub closed spec fn kinds(&self) -> Seq<ButtonKind> {
        self.kinds@
    }

    pub closed spec fn wf(&self) -> bool {
        forall|i: int| 0 <= i < self.names@.len() ==> (#[trigger] self.names@[i]).1 < self.kinds@.len()
    }

    pub fn new() -> (r: Self)
        ensures
            r.wf(),
            r.names().len() == 0,
            r.kinds().len() == 0,
    {
        ButtonSet { names: NameTable::new(), kinds: Vec::new() }
    }

    /// Records a button under `name`; gives its slot.
    pub fn add(&mut self, name: &str, kind: ButtonKind) -> (slot: usize)
        requires
            old(self).wf(),
            old(self).kinds().len() < usize::MAX,
        ensures
            final(self).wf(),
            slot == old(self).kinds().len(),
            final(self).kinds() == old(self).kinds().push(kind),
            final(self).names() == old(self).names().push((name@, slot)),
    {
        let slot = self.kinds.len();
        self.kinds.push(kind);
        self.names.insert(name, slot);
        proof {
            assert forall|i: int| 0 <= i < self.names@.len() implies (#[trigger] self.names@[i]).1 < self.kinds@.len() by {
                if i < old(self).names@.len() {
                    assert(self.names@[i] == old(self).names@[i]);
                }
            }
        }
        slot
    }

    /// The slot of the button named `name`, if there is one.
    pub fn lookup(&self, name: &str) -> (r: Option<usize>)
        requires
            self.wf(),
        ensures
            r == lookup_id(self.names(), name@),
            r matches Some(s) ==> s < self.kinds().len(),
    {
        let r = self.names.get(name);
        proof {
            if r is Some {
                lemma_lookup_in(self.names@, name@);
            }
        }
        r
    }

    /// The button that invoking `name` presses: none for an unknown name,
    /// and none for a menu button, which is not invoked.
    pub fn invoke(&self, name: &str) -> (r: Option<usize>)
        requires
            self.wf(),
        ensures
            match lookup_id(self.names(), name@) {
                None => r is None,
                Some(s) => if self.kinds()[s as int] == ButtonKind::Menu {
                    r is None
                } else {
                    r == Some(s)
                },
            },
    {
        match self.lookup(name) {
            None => None,
            Some(s) => match self.kinds[s] {
                ButtonKind::Menu => None,
                _ => Some(s),
            },
        }
    }

    /// The button that gets the focus for `name`: any known button.
    pub fn setfocus(&self, name: &str) -> (r: Option<usize>)
        requires
            self.wf(),
        ensures
            r == lookup_id(self.names(), name@),
    {
        self.lookup(name)
    }
}

/// A recorded value is one of the recorded pairs.
pub proof fn lemma_lookup_in(ids: Seq<(Seq<char>, usize)>, name: Seq<char>)
    requires
        lookup_id(ids, name) is Some,
    ensures
        exists|i: int| 0 <= i < ids.len() && ids[i] == (name, lookup_id(ids, name)->0),
    decreases ids.len(),
{
    if ids.last().0 != name {
        lemma_lookup_in(ids.drop_last(), name);
        let i = choose|i: int| 0 <= i < ids.len() - 1 && ids.drop_last()[i] == (name, lookup_id(ids, name)->0);
        assert(ids[i] == ids.drop_last()[i]);
    } else {
        assert(ids[ids.len() - 1] == ids.last());
    }
}

} // verus!
