use vstd::prelude::*;
use crate::text::{split_spaces, split_tags, string_views};
use crate::mainframe::StateType;

verus! {

/// Where a menu entry stands: the menu's number and the entry's index in it.
pub type EntryKey = (usize, usize);

/// The mathematical value of a tag registry.
#[verifier::ext_equal]
pub struct MenuTagsView {
    /// The state of each known tag: `true` is enabled.
    pub tag_states: Map<Seq<char>, bool>,
    /// For each known tag, the entries registered under it, in order.
    pub tag_entries: Map<Seq<char>, Seq<EntryKey>>,
    /// For each registered entry, its tags.
    pub entry_tags: Map<EntryKey, Seq<Seq<char>>>,
}

/// A registry is consistent: the same tags have states and entry lists,
/// every entry listed under a tag is registered, and every tag of a
/// registered entry has a state.
pub open spec fn view_wf(v: MenuTagsView) -> bool {
    &&& v.tag_states.dom() == v.tag_entries.dom()
    &&& forall|t: Seq<char>, m: int|
        #![trigger v.tag_entries[t][m]]
        v.tag_entries.contains_key(t) && 0 <= m < v.tag_entries[t].len()
            ==> v.entry_tags.contains_key(v.tag_entries[t][m])
    &&& forall|k: EntryKey, m: int|
        #![trigger v.entry_tags[k][m]]
        v.entry_tags.contains_key(k) && 0 <= m < v.entry_tags[k].len()
            ==> v.tag_states.contains_key(v.entry_tags[k][m])
}

/// All of `tags` are enabled in `states`.
pub open spec fn all_enabled(states: Map<Seq<char>, bool>, tags: Seq<Seq<char>>) -> bool {
    forall|m: int| 0 <= m < tags.len() ==> states[#[trigger] tags[m]]
}

/// Lists `key` under one more tag; a tag seen for the first time is enabled.
pub open spec fn add_tag(v: MenuTagsView, key: EntryKey, t: Seq<char>) -> MenuTagsView {
    MenuTagsView {
        tag_states: if v.tag_states.contains_key(t) {
            v.tag_states
        } else {
            v.tag_states.insert(t, true)
        },
        tag_entries: v.tag_entries.insert(
            t,
            if v.tag_entries.contains_key(t) {
                v.tag_entries[t].push(key)
            } else {
                seq![key]
            },
        ),
        entry_tags: v.entry_tags,
    }
}

/// Lists `key` under each of `tags`, first to last.
pub open spec fn add_tags(v: MenuTagsView, key: EntryKey, tags: Seq<Seq<char>>) -> MenuTagsView
    decreases tags.len(),
{
    if tags.len() == 0 {
        v
    } else {
        add_tag(add_tags(v, key, tags.drop_last()), key, tags.last())
    }
}

/// Registers the entry `key` with the tags in `tags` (a space-separated
/// list): the entry's tags are replaced, and it is listed under each tag.
pub open spec fn register_view(v: MenuTagsView, key: EntryKey, tags: Seq<char>) -> MenuTagsView {
    add_tags(
        MenuTagsView { entry_tags: v.entry_tags.insert(key, split_spaces(tags)), ..v },
        key,
        split_spaces(tags),
    )
}

spec fn names_have(names: Seq<String>, t: Seq<char>) -> bool {
    exists|i: int| 0 <= i < names.len() && names[i]@ == t
}

spec fn name_pos(names: Seq<String>, t: Seq<char>) -> int {
    choose|i: int| 0 <= i < names.len() && names[i]@ == t
}

spec fn keys_have(keys: Seq<EntryKey>, k: EntryKey) -> bool {
    exists|j: int| 0 <= j < keys.len() && keys[j] == k
}

spec fn key_pos_in(keys: Seq<EntryKey>, k: EntryKey) -> int {
    choose|j: int| 0 <= j < keys.len() && keys[j] == k
}

/// What adding tags to an entry does to tag states: known tags keep their
/// states, and each added tag is known afterwards, enabled if it was new.
pub proof fn lemma_add_tags_states(v: MenuTagsView, key: EntryKey, tags: Seq<Seq<char>>)
    ensures
        forall|t: Seq<char>|
            #![trigger add_tags(v, key, tags).tag_states.contains_key(t)]
            add_tags(v, key, tags).tag_states.contains_key(t)
                <==> (v.tag_states.contains_key(t) || tags.contains(t)),
        forall|t: Seq<char>|
            v.tag_states.contains_key(t) ==> #[trigger] add_tags(v, key, tags).tag_states[t] == v.tag_states[t],
        forall|t: Seq<char>|
            !v.tag_states.contains_key(t) && tags.contains(t) ==> #[trigger] add_tags(v, key, tags).tag_states[t],
        add_tags(v, key, tags).entry_tags == v.entry_tags,
    decreases tags.len(),
{
    if tags.len() > 0 {
        lemma_add_tags_states(v, key, tags.drop_last());
        let w = add_tags(v, key, tags.drop_last());
        let r = add_tags(v, key, tags);
        assert forall|t: Seq<char>| tags.contains(t) <==> (tags.drop_last().contains(t) || t == tags.last()) by {
            if tags.contains(t) {
                let m = choose|m: int| 0 <= m < tags.len() && tags[m] == t;
                if m < tags.len() - 1 {
                    assert(tags.drop_last()[m] == t);
                }
            }
            if tags.drop_last().contains(t) {
                let m = choose|m: int| 0 <= m < tags.len() - 1 && tags.drop_last()[m] == t;
                assert(tags[m] == t);
            }
            if t == tags.last() {
                assert(tags[tags.len() - 1] == t);
            }
        }
        assert forall|t: Seq<char>| #[trigger] r.tag_states.contains_key(t)
            <==> (v.tag_states.contains_key(t) || tags.contains(t)) by {}
    }
}

/// Registering an entry keeps the state of every tag known before, and
/// each of the entry's tags is known afterwards; a tag seen for the first
/// time starts enabled.
pub proof fn law_register_keeps_states(v: MenuTagsView, key: EntryKey, tags: Seq<char>)
    ensures
        forall|t: Seq<char>|
            v.tag_states.contains_key(t) ==> #[trigger] register_view(v, key, tags).tag_states.contains_key(t)
                && register_view(v, key, tags).tag_states[t] == v.tag_states[t],
        forall|t: Seq<char>|
            split_spaces(tags).contains(t) ==> #[trigger] register_view(v, key, tags).tag_states.contains_key(t),
        forall|t: Seq<char>|
            !v.tag_states.contains_key(t) && split_spaces(tags).contains(t)
                ==> #[trigger] register_view(v, key, tags).tag_states[t],
        register_view(v, key, tags).entry_tags == v.entry_tags.insert(key, split_spaces(tags)),
{
    lemma_add_tags_states(
        MenuTagsView { entry_tags: v.entry_tags.insert(key, split_spaces(tags)), ..v },
        key,
        split_spaces(tags),
    );
}

/// The registry with the state of tag `t` set.
pub open spec fn set_state_view(v: MenuTagsView, t: Seq<char>, enabled: bool) -> MenuTagsView {
    MenuTagsView { tag_states: v.tag_states.insert(t, enabled), ..v }
}

/// Disabling an enabled tag and enabling it again gives the registry back
/// as it was.
pub proof fn law_disable_then_enable(v: MenuTagsView, t: Seq<char>)
    requires
        v.tag_states.contains_key(t),
        v.tag_states[t],
    ensures
        set_state_view(set_state_view(v, t, false), t, true) == v,
{
    assert(set_state_view(set_state_view(v, t, false), t, true).tag_states =~= v.tag_states);
}

/// Every known tag is enabled.
pub open spec fn all_tags_enabled(v: MenuTagsView) -> bool {
    forall|t: Seq<char>| v.tag_states.contains_key(t) ==> #[trigger] v.tag_states[t]
}

/// Registering an entry keeps every tag enabled when every tag was.
pub proof fn lemma_register_keeps_enabled(v: MenuTagsView, key: EntryKey, tags: Seq<char>)
    requires
        all_tags_enabled(v),
    ensures
        all_tags_enabled(register_view(v, key, tags)),
{
    law_register_keeps_states(v, key, tags);
    let w = MenuTagsView { entry_tags: v.entry_tags.insert(key, split_spaces(tags)), ..v };
    lemma_add_tags_states(w, key, split_spaces(tags));
}

/// Where entry `k` stands once an entry is inserted at index `p` of menu
/// `menu`: the entries of that menu from `p` on move down by one.
pub open spec fn shift_key(k: EntryKey, menu: usize, p: usize) -> EntryKey {
    if k.0 == menu && k.1 >= p {
        (k.0, (k.1 + 1) as usize)
    } else {
        k
    }
}

/// The entry that stood at `k` before an entry was inserted at index `p`
/// of menu `menu`; none stood at the inserted entry's own place.
pub open spec fn unshift_key(k: EntryKey, menu: usize, p: usize) -> Option<EntryKey> {
    if k.0 == menu && k.1 == p {
        None
    } else if k.0 == menu && k.1 > p {
        Some((k.0, (k.1 - 1) as usize))
    } else {
        Some(k)
    }
}

/// Every registered entry of menu `menu` can move down by one index.
pub open spec fn keys_shiftable(v: MenuTagsView, menu: usize) -> bool {
    forall|k: EntryKey| #[trigger] v.entry_tags.contains_key(k) && k.0 == menu ==> k.1 < usize::MAX
}

/// The registry once an entry is inserted at index `p` of menu `menu`:
/// the entries of that menu from `p` on keep their tags one index further
/// down, and nothing is registered at `p` itself.
pub open spec fn shift_view(v: MenuTagsView, menu: usize, p: usize) -> MenuTagsView {
    MenuTagsView {
        tag_states: v.tag_states,
        tag_entries: v.tag_entries.map_values(
            |s: Seq<EntryKey>| s.map_values(|k: EntryKey| shift_key(k, menu, p)),
        ),
        entry_tags: Map::new(
            |k: EntryKey|
                unshift_key(k, menu, p) is Some && v.entry_tags.contains_key(unshift_key(k, menu, p)->0),
            |k: EntryKey| v.entry_tags[unshift_key(k, menu, p)->0],
        ),
    }
}

/// Moving an entry down can be undone, and only an entry that moves there
/// lands on a given place.
proof fn lemma_shift_unshift(a: EntryKey, k: EntryKey, menu: usize, p: usize)
    requires
        a.0 == menu ==> a.1 < usize::MAX,
    ensures
        (shift_key(a, menu, p) == k) <==> (unshift_key(k, menu, p) == Some(a)),
{
}

/// Inserting an entry keeps the tags of every registered entry, at its
/// new place, and frees the inserted entry's place.
pub proof fn law_shift_keeps_entries(v: MenuTagsView, menu: usize, p: usize)
    requires
        keys_shiftable(v, menu),
    ensures
        forall|k: EntryKey|
            #![trigger shift_key(k, menu, p)]
            v.entry_tags.contains_key(k) ==> shift_view(v, menu, p).entry_tags.contains_key(shift_key(k, menu, p))
                && shift_view(v, menu, p).entry_tags[shift_key(k, menu, p)] == v.entry_tags[k]
                && shift_key(k, menu, p) != (menu, p),
        !shift_view(v, menu, p).entry_tags.contains_key((menu, p)),
        shift_view(v, menu, p).tag_states == v.tag_states,
{
    assert forall|k: EntryKey| #![trigger shift_key(k, menu, p)] v.entry_tags.contains_key(k) implies shift_view(v, menu, p).entry_tags.contains_key(shift_key(k, menu, p))
        && shift_view(v, menu, p).entry_tags[shift_key(k, menu, p)] == v.entry_tags[k]
        && shift_key(k, menu, p) != (menu, p) by {
        lemma_shift_unshift(k, shift_key(k, menu, p), menu, p);
    }
}

/// The keys `keys`, each moved as inserting an entry at index `p` of menu
/// `menu` moves it.
fn shift_list(keys: &Vec<EntryKey>, menu: usize, p: usize) -> (r: Vec<EntryKey>)
    requires
        forall|q: int| 0 <= q < keys@.len() && (#[trigger] keys@[q]).0 == menu ==> keys@[q].1 < usize::MAX,
    ensures
        r@ == keys@.map_values(|k: EntryKey| shift_key(k, menu, p)),
{
    let mut r: Vec<EntryKey> = Vec::new();
    let mut q: usize = 0;
    while q < keys.len()
        invariant
            q <= keys@.len(),
            r@.len() == q,
            forall|a: int| 0 <= a < keys@.len() && (#[trigger] keys@[a]).0 == menu ==> keys@[a].1 < usize::MAX,
            forall|a: int| 0 <= a < q ==> #[trigger] r@[a] == shift_key(keys@[a], menu, p),
        decreases keys@.len() - q,
    {
        let k = keys[q];
        if k.0 == menu && k.1 >= p {
            r.push((k.0, k.1 + 1));
        } else {
            r.push(k);
        }
        q = q + 1;
    }
    assert(r@ =~= keys@.map_values(|k: EntryKey| shift_key(k, menu, p)));
    r
}

/// The registry of menu tags: which entries carry which tags, and whether
/// each tag is enabled.
pub struct MenuTags {
    tag_names: Vec<String>,
    tag_states: Vec<bool>,
    tag_entries: Vec<Vec<EntryKey>>,
    entry_keys: Vec<EntryKey>,
    entry_tags: Vec<Vec<String>>,
}

impl MenuTags {
    pub closed spec fn has_tag(self, t: Seq<char>) -> bool {
        names_have(self.tag_names@, t)
    }

    pub closed spec fn tag_pos(self, t: Seq<char>) -> int {
        name_pos(self.tag_names@, t)
    }

    pub closed spec fn has_key(self, k: EntryKey) -> bool {
        keys_have(self.entry_keys@, k)
    }

    pub closed spec fn key_pos(self, k: EntryKey) -> int {
        key_pos_in(self.entry_keys@, k)
    }

    pub closed spec fn tags_at(self, j: int) -> Seq<Seq<char>> {
        string_views(self.entry_tags@[j]@)
    }

    closed spec fn wf_shape(self) -> bool {
        &&& self.tag_states@.len() == self.tag_names@.len()
        &&& self.tag_entries@.len() == self.tag_names@.len()
        &&& self.entry_tags@.len() == self.entry_keys@.len()
        &&& forall|i: int, j: int|
            0 <= i < self.tag_names@.len() && 0 <= j < self.tag_names@.len() && i != j
                ==> self.tag_names@[i]@ != self.tag_names@[j]@
        &&& forall|i: int, j: int|
            0 <= i < self.entry_keys@.len() && 0 <= j < self.entry_keys@.len() && i != j
                ==> self.entry_keys@[i] != self.entry_keys@[j]
    }

    closed spec fn wf_listed(self) -> bool {
        forall|i: int, m: int|
            #![trigger self.tag_entries@[i]@[m]]
            0 <= i < self.tag_entries@.len() && 0 <= m < self.tag_entries@[i]@.len()
                ==> self.has_key(self.tag_entries@[i]@[m])
    }

    /// Every tag of every entry is known, except for the tags of entry
    /// `jx` from position `mx` on.
    closed spec fn wf_tagged_but(self, jx: int, mx: int) -> bool {
        forall|j: int, m: int|
            #![trigger self.tags_at(j)[m]]
            0 <= j < self.entry_tags@.len() && 0 <= m < self.tags_at(j).len() && (j != jx || m < mx)
                ==> self.has_tag(self.tags_at(j)[m])
    }

    pub closed spec fn wf(self) -> bool {
        &&& self.wf_shape()
        &&& self.wf_listed()
        &&& self.wf_tagged_but(-1, 0)
    }

    pub closed spec fn view(self) -> MenuTagsView {
        MenuTagsView {
            tag_states: Map::new(|t: Seq<char>| self.has_tag(t), |t: Seq<char>| self.tag_states@[self.tag_pos(t)]),
            tag_entries: Map::new(|t: Seq<char>| self.has_tag(t), |t: Seq<char>| self.tag_entries@[self.tag_pos(t)]@),
            entry_tags: Map::new(|k: EntryKey| self.has_key(k), |k: EntryKey| self.tags_at(self.key_pos(k))),
        }
    }

    proof fn lemma_tag_pos(self, i: int)
        requires
            self.wf_shape(),
            0 <= i < self.tag_names@.len(),
        ensures
            self.has_tag(self.tag_names@[i]@),
            self.tag_pos(self.tag_names@[i]@) == i,
    {
        let t = self.tag_names@[i]@;
        assert(self.has_tag(t));
    }

    proof fn lemma_key_pos(self, j: int)
        requires
            self.wf_shape(),
            0 <= j < self.entry_keys@.len(),
        ensures
            self.has_key(self.entry_keys@[j]),
            self.key_pos(self.entry_keys@[j]) == j,
    {
        assert(self.has_key(self.entry_keys@[j]));
    }

    /// A consistent registry has a consistent value.
    pub proof fn lemma_view_wf(self)
        requires
            self.wf(),
        ensures
            view_wf(self.view()),
    {
        let v = self.view();
        assert(v.tag_states.dom() =~= v.tag_entries.dom());
        assert forall|t: Seq<char>, m: int|
            #![trigger v.tag_entries[t][m]]
            v.tag_entries.contains_key(t) && 0 <= m < v.tag_entries[t].len()
                implies v.entry_tags.contains_key(v.tag_entries[t][m]) by {
            let i = self.tag_pos(t);
            assert(self.tag_entries@[i]@[m] == v.tag_entries[t][m]);
        }
        assert forall|k: EntryKey, m: int|
            #![trigger v.entry_tags[k][m]]
            v.entry_tags.contains_key(k) && 0 <= m < v.entry_tags[k].len()
                implies v.tag_states.contains_key(v.entry_tags[k][m]) by {
            let j = self.key_pos(k);
            assert(self.tags_at(j)[m] == v.entry_tags[k][m]);
        }
    }

    /// An empty registry.
    pub fn new() -> (r: Self)
        ensures
            r.wf(),
            r.view().tag_states.is_empty(),
            r.view().tag_entries.is_empty(),
            r.view().entry_tags.is_empty(),
    {
        let r = MenuTags {
            tag_names: Vec::new(),
            tag_states: Vec::new(),
            tag_entries: Vec::new(),
            entry_keys: Vec::new(),
            entry_tags: Vec::new(),
        };
        assert(r.view().tag_states =~= Map::empty());
        assert(r.view().tag_entries =~= Map::empty());
        assert(r.view().entry_tags =~= Map::empty());
        r
    }

    fn find_tag(&self, t: &String) -> (r: Option<usize>)
        requires
            self.wf_shape(),
        ensures
            r is None ==> !self.has_tag(t@),
            r matches Some(i) ==> i < self.tag_names@.len() && self.tag_names@[i as int]@ == t@
                && self.tag_pos(t@) == i,
    {
        let mut i: usize = 0;
        while i < self.tag_names.len()
            invariant
                self.wf_shape(),
                i <= self.tag_names@.len(),
                forall|j: int| 0 <= j < i ==> self.tag_names@[j]@ != t@,
            decreases self.tag_names@.len() - i,
        {
            if self.tag_names[i] == *t {
                proof {
                    self.lemma_tag_pos(i as int);
                }
                return Some(i);
            }
            i = i + 1;
        }
        None
    }

    fn find_key(&self, k: EntryKey) -> (r: Option<usize>)
        requires
            self.wf_shape(),
        ensures
            r is None ==> !self.has_key(k),
            r matches Some(j) ==> j < self.entry_keys@.len() && self.entry_keys@[j as int] == k
                && self.key_pos(k) == j,
    {
        let mut j: usize = 0;
        while j < self.entry_keys.len()
            invariant
                self.wf_shape(),
                j <= self.entry_keys@.len(),
                forall|m: int| 0 <= m < j ==> self.entry_keys@[m] != k,
            decreases self.entry_keys@.len() - j,
        {
            if self.entry_keys[j].0 == k.0 && self.entry_keys[j].1 == k.1 {
                proof {
                    self.lemma_key_pos(j as int);
                }
                return Some(j);
            }
            j = j + 1;
        }
        None
    }

    /// Sets the tags of entry `key` (replacing earlier ones); returns its
    /// position. Its new tags need not be known yet.
    fn set_entry(&mut self, key: EntryKey, parts: Vec<String>) -> (j: usize)
        requires
            old(self).wf(),
        ensures
            final(self).wf_shape(),
            final(self).wf_listed(),
            final(self).wf_tagged_but(j as int, 0),
            j < final(self).entry_keys@.len(),
            final(self).entry_keys@[j as int] == key,
            final(self).tags_at(j as int) == string_views(parts@),
            final(self).view() == (MenuTagsView {
                entry_tags: old(self).view().entry_tags.insert(key, string_views(parts@)),
                ..old(self).view()
            }),
            final(self).tag_names@ == old(self).tag_names@,
    {
        let ghost v0 = self.view();
        let found = self.find_key(key);
        let j: usize;
        match found {
            Some(p) => {
                self.entry_tags.set(p, parts);
                j = p;
                proof {
                    assert forall|q: int| 0 <= q < self.entry_keys@.len() && q != p
                        implies self.tags_at(q) == old(self).tags_at(q) by {}
                }
            },
            None => {
                self.entry_keys.push(key);
                self.entry_tags.push(parts);
                j = self.entry_keys.len() - 1;
                proof {
                    assert forall|q: int| 0 <= q < j
                        implies self.tags_at(q) == old(self).tags_at(q) by {}
                }
            },
        }
        proof {
            assert(self.tag_names == old(self).tag_names);
            assert forall|a: int, b: int|
                0 <= a < self.entry_keys@.len() && 0 <= b < self.entry_keys@.len() && a != b
                implies self.entry_keys@[a] != self.entry_keys@[b] by {
                if a < old(self).entry_keys@.len() && b < old(self).entry_keys@.len() {
                } else if a >= old(self).entry_keys@.len() {
                    assert(!old(self).has_key(self.entry_keys@[a]));
                    assert(self.entry_keys@[b] == old(self).entry_keys@[b]);
                } else {
                    assert(!old(self).has_key(self.entry_keys@[b]));
                    assert(self.entry_keys@[a] == old(self).entry_keys@[a]);
                }
            }
            assert(self.wf_shape());
            self.lemma_key_pos(j as int);
            assert forall|k: EntryKey| old(self).has_key(k) implies self.has_key(k) by {
                let q = old(self).key_pos(k);
                assert(self.entry_keys@[q] == k);
            }
            assert forall|t: Seq<char>| #[trigger] self.has_tag(t) == old(self).has_tag(t) by {
                if self.has_tag(t) {
                    let i = self.tag_pos(t);
                    assert(old(self).tag_names@[i]@ == t);
                }
                if old(self).has_tag(t) {
                    let i = old(self).tag_pos(t);
                    assert(self.tag_names@[i]@ == t);
                }
            }
            assert forall|t: Seq<char>| #[trigger] self.tag_pos(t) == old(self).tag_pos(t) by {}
            let v1 = self.view();
            let e = v0.entry_tags.insert(key, string_views(parts@));
            assert forall|k: EntryKey| #[trigger] v1.entry_tags.contains_key(k) == e.contains_key(k) by {
                if self.has_key(k) && k != key {
                    let q = self.key_pos(k);
                    assert(q != j);
                    assert(old(self).entry_keys@[q] == k);
                }
            }
            assert forall|k: EntryKey| v1.entry_tags.contains_key(k) implies v1.entry_tags[k] == e[k] by {
                if k != key {
                    let q = self.key_pos(k);
                    assert(q != j);
                    old(self).lemma_key_pos(q);
                }
            }
            assert(v1.entry_tags =~= e);
            assert(v1.tag_states =~= v0.tag_states);
            assert(v1.tag_entries =~= v0.tag_entries);
        }
        j
    }

    /// Lists entry `j`'s key under its tag number `m`, `t`, making `t`
    /// known (and enabled) if it is new.
    fn add_tag_exec(&mut self, key: EntryKey, j: Ghost<int>, m: Ghost<int>, t: &String)
        requires
            old(self).entry_keys@[j@] == key,
            old(self).wf_shape(),
            old(self).wf_listed(),
            old(self).wf_tagged_but(j@, m@),
            0 <= j@ < old(self).entry_keys@.len(),
            0 <= m@ < old(self).tags_at(j@).len(),
            old(self).tags_at(j@)[m@] == t@,
        ensures
            final(self).wf_shape(),
            final(self).wf_listed(),
            final(self).wf_tagged_but(j@, m@ + 1),
            final(self).entry_keys@ == old(self).entry_keys@,
            final(self).entry_tags@ == old(self).entry_tags@,
            final(self).view() == add_tag(old(self).view(), key, t@),
    {
        let ghost v0 = self.view();
        let found = self.find_tag(t);
        let ghost ti: int;
        match found {
            Some(i) => {
                self.tag_entries[i].push(key);
                proof {
                    ti = i as int;
                }
            },
            None => {
                self.tag_names.push(t.clone());
                self.tag_states.push(true);
                self.tag_entries.push(vec![key]);
                proof {
                    ti = self.tag_names@.len() - 1;
                }
            },
        }
        proof {
            let n0 = old(self).tag_names@.len();
            assert(self.entry_keys == old(self).entry_keys);
            assert(self.entry_tags == old(self).entry_tags);
            assert(self.tag_names@[ti]@ == t@);
            assert forall|a: int| 0 <= a < n0 implies self.tag_names@[a] == old(self).tag_names@[a] by {}
            assert forall|a: int, b: int|
                0 <= a < self.tag_names@.len() && 0 <= b < self.tag_names@.len() && a != b
                implies self.tag_names@[a]@ != self.tag_names@[b]@ by {
                if a >= n0 {
                    assert(!old(self).has_tag(t@));
                    assert(old(self).tag_names@[b]@ != t@);
                } else if b >= n0 {
                    assert(!old(self).has_tag(t@));
                    assert(old(self).tag_names@[a]@ != t@);
                }
            }
            assert(self.wf_shape());
            self.lemma_tag_pos(ti);
            assert forall|u: Seq<char>| #[trigger] self.has_tag(u) == (old(self).has_tag(u) || u == t@) by {
                if self.has_tag(u) {
                    let a = self.tag_pos(u);
                    if a < n0 {
                        assert(old(self).tag_names@[a]@ == u);
                    }
                }
                if old(self).has_tag(u) {
                    let a = old(self).tag_pos(u);
                    assert(self.tag_names@[a]@ == u);
                }
            }
            assert forall|u: Seq<char>| old(self).has_tag(u) implies #[trigger] self.tag_pos(u) == old(self).tag_pos(u) by {
                let a = old(self).tag_pos(u);
                assert(self.tag_names@[a]@ == u);
                self.lemma_tag_pos(a);
            }
            assert forall|a: int, q: int|
                #![trigger self.tag_entries@[a]@[q]]
                0 <= a < self.tag_entries@.len() && 0 <= q < self.tag_entries@[a]@.len()
                implies self.has_key(self.tag_entries@[a]@[q]) by {
                if a == ti && q == self.tag_entries@[a]@.len() - 1 {
                    assert(self.tag_entries@[a]@[q] == key);
                    assert(self.entry_keys@[j@] == key);
                } else {
                    assert(self.tag_entries@[a]@[q] == old(self).tag_entries@[a]@[q]);
                    assert(old(self).has_key(self.tag_entries@[a]@[q]));
                }
            }
            assert forall|b: int, q: int|
                #![trigger self.tags_at(b)[q]]
                0 <= b < self.entry_tags@.len() && 0 <= q < self.tags_at(b).len() && (b != j@ || q < m@ + 1)
                implies self.has_tag(self.tags_at(b)[q]) by {
                assert(self.tags_at(b) == old(self).tags_at(b));
                if b == j@ && q == m@ {
                } else {
                    assert(old(self).has_tag(old(self).tags_at(b)[q]));
                }
            }
            let v1 = self.view();
            let w = add_tag(v0, key, t@);
            assert forall|u: Seq<char>| v1.tag_states.contains_key(u) implies v1.tag_states[u] == w.tag_states[u] by {
                if u != t@ {
                    let a = old(self).tag_pos(u);
                    assert(self.tag_states@[a] == old(self).tag_states@[a]);
                }
            }
            assert(v1.tag_states =~= w.tag_states);
            assert forall|u: Seq<char>| v1.tag_entries.contains_key(u) implies v1.tag_entries[u] == w.tag_entries[u] by {
                if u != t@ {
                    let a = old(self).tag_pos(u);
                    assert(a != ti);
                    assert(self.tag_entries@[a] == old(self).tag_entries@[a]);
                } else if old(self).has_tag(t@) {
                    assert(self.tag_entries@[ti]@ =~= old(self).tag_entries@[ti]@.push(key));
                } else {
                    assert(self.tag_entries@[ti]@ =~= seq![key]);
                }
            }
            assert(v1.tag_entries =~= w.tag_entries);
            assert(v1.entry_tags =~= w.entry_tags);
        }
    }

    /// Registers the menu entry `key` with the space-separated tag list
    /// `tags`: the entry's tags are replaced, the entry is listed under each
    /// of them, and a tag seen for the first time starts enabled.
    pub fn register(&mut self, key: EntryKey, tags: &str)
        requires
            old(self).wf(),
        ensures
            final(self).wf(),
            final(self).view() == register_view(old(self).view(), key, tags@),
    {
        let parts = split_tags(tags);
        let names = parts.clone();
        proof {
            assert(names@ =~= parts@);
        }
        let ghost split = string_views(names@);
        let j = self.set_entry(key, parts);
        let ghost vb = self.view();
        let mut m: usize = 0;
        proof {
            assert(split.take(0) =~= Seq::<Seq<char>>::empty());
        }
        while m < names.len()
            invariant
                self.wf_shape(),
                self.wf_listed(),
                self.wf_tagged_but(j as int, m as int),
                j < self.entry_keys@.len(),
                self.entry_keys@[j as int] == key,
                self.tags_at(j as int) == split,
                split == string_views(names@),
                m <= names@.len(),
                self.view() == add_tags(vb, key, split.take(m as int)),
            decreases names@.len() - m,
        {
            self.add_tag_exec(key, Ghost(j as int), Ghost(m as int), &names[m]);
            proof {
                assert(split.take(m + 1).drop_last() =~= split.take(m as int));
                assert(split.take(m + 1).last() == names@[m as int]@);
            }
            m = m + 1;
        }
        proof {
            assert(split.take(names@.len() as int) =~= split);
            assert(self.wf_tagged_but(-1, 0)) by {
                assert forall|b: int, q: int|
                    #![trigger self.tags_at(b)[q]]
                    0 <= b < self.entry_tags@.len() && 0 <= q < self.tags_at(b).len()
                    implies self.has_tag(self.tags_at(b)[q]) by {
                    if b == j {
                        assert(q < m);
                    }
                }
            }
        }
    }

    /// Whether all of entry `j`'s tags are enabled.
    fn entry_enabled(&self, j: usize) -> (r: bool)
        requires
            self.wf(),
            j < self.entry_keys@.len(),
        ensures
            r == all_enabled(self.view().tag_states, self.tags_at(j as int)),
    {
        let ghost v = self.view();
        let mut all = true;
        let mut m: usize = 0;
        while m < self.entry_tags[j].len()
            invariant
                self.wf(),
                v == self.view(),
                j < self.entry_keys@.len(),
                m <= self.tags_at(j as int).len(),
                all == (forall|q: int| 0 <= q < m ==> v.tag_states[#[trigger] self.tags_at(j as int)[q]]),
            decreases self.tags_at(j as int).len() - m,
        {
            let ghost tq = self.tags_at(j as int)[m as int];
            assert(self.has_tag(tq));
            match self.find_tag(&self.entry_tags[j][m]) {
                Some(p) => {
                    assert(self.tag_states@[p as int] == v.tag_states[tq]);
                    all = all && self.tag_states[p];
                },
                None => {
                    assert(false);
                },
            }
            m = m + 1;
        }
        all
    }

    /// Sets the state of `tag` and gives, for each entry listed under it
    /// in order, whether that entry is now enabled: an entry is enabled
    /// exactly when all of its tags are. An unknown tag changes nothing.
    pub fn setmenustate(&mut self, tag: &str, state: StateType) -> (r: Vec<(EntryKey, bool)>)
        requires
            old(self).wf(),
        ensures
            final(self).wf(),
            !old(self).view().tag_states.contains_key(tag@) ==> final(self).view() == old(self).view()
                && r@.len() == 0,
            old(self).view().tag_states.contains_key(tag@) ==> {
                let v = final(self).view();
                &&& v == set_state_view(old(self).view(), tag@, state == StateType::Normal)
                &&& r@.len() == v.tag_entries[tag@].len()
                &&& forall|i: int|
                    0 <= i < r@.len() ==> #[trigger] r@[i].0 == v.tag_entries[tag@][i]
                        && r@[i].1 == all_enabled(v.tag_states, v.entry_tags[r@[i].0])
            },
    {
        let t = tag.to_owned();
        let mut out: Vec<(EntryKey, bool)> = Vec::new();
        match self.find_tag(&t) {
            None => {
                return out;
            },
            Some(i) => {
                let enabled = match state {
                    StateType::Disabled => false,
                    StateType::Normal => true,
                };
                let ghost v0 = self.view();
                self.tag_states.set(i, enabled);
                proof {
                    assert(self.tag_names == old(self).tag_names);
                    assert(self.entry_keys == old(self).entry_keys);
                    assert(self.entry_tags == old(self).entry_tags);
                    assert(self.tag_entries == old(self).tag_entries);
                    assert(forall|u: Seq<char>| #[trigger] self.has_tag(u) == old(self).has_tag(u));
                    assert(self.wf_shape());
                    assert(self.wf_listed());
                    assert forall|b: int, q: int|
                        #![trigger self.tags_at(b)[q]]
                        0 <= b < self.entry_tags@.len() && 0 <= q < self.tags_at(b).len()
                        implies self.has_tag(self.tags_at(b)[q]) by {
                        assert(self.tags_at(b) == old(self).tags_at(b));
                        assert(old(self).has_tag(old(self).tags_at(b)[q]));
                    }
                    assert(self.wf());
                    let v1 = self.view();
                    let w = v0.tag_states.insert(tag@, enabled);
                    assert forall|u: Seq<char>| v1.tag_states.contains_key(u) implies v1.tag_states[u] == w[u] by {
                        if u != tag@ {
                            let a = self.tag_pos(u);
                            self.lemma_tag_pos(a);
                            assert(a != i);
                        }
                    }
                    assert(v1.tag_states =~= w);
                    assert(v1.tag_entries =~= v0.tag_entries);
                    assert(v1.entry_tags =~= v0.entry_tags);
                }
                let ghost v = self.view();
                let mut idx: usize = 0;
                while idx < self.tag_entries[i].len()
                    invariant
                        self.wf(),
                        v == self.view(),
                        i < self.tag_names@.len(),
                        self.tag_names@[i as int]@ == tag@,
                        self.tag_pos(tag@) == i,
                        idx <= self.tag_entries@[i as int]@.len(),
                        out@.len() == idx,
                        forall|q: int|
                            0 <= q < idx ==> #[trigger] out@[q] == (v.tag_entries[tag@][q],
                                all_enabled(v.tag_states, v.entry_tags[v.tag_entries[tag@][q]])),
                    decreases self.tag_entries@[i as int]@.len() - idx,
                {
                    let k = self.tag_entries[i][idx];
                    assert(self.has_key(k));
                    match self.find_key(k) {
                        Some(j) => {
                            let e = self.entry_enabled(j);
                            let ghost out0 = out@;
                            out.push((k, e));
                            proof {
                                assert(v.tag_entries[tag@] == self.tag_entries@[i as int]@);
                                assert(v.entry_tags[k] == self.tags_at(j as int));
                                assert forall|q: int| 0 <= q < idx implies out@[q] == out0[q] by {}
                            }
                        },
                        None => {
                            assert(false);
                        },
                    }
                    idx = idx + 1;
                }
            },
        }
        out
    }

    /// Whether every registered entry of menu `menu` can move down by one
    /// index.
    pub fn can_shift(&self, menu: usize) -> (r: bool)
        requires
            self.wf(),
        ensures
            r == keys_shiftable(self.view(), menu),
    {
        let ghost v = self.view();
        let mut j: usize = 0;
        while j < self.entry_keys.len()
            invariant
                self.wf(),
                v == self.view(),
                j <= self.entry_keys@.len(),
                forall|a: int| 0 <= a < j && (#[trigger] self.entry_keys@[a]).0 == menu ==> self.entry_keys@[a].1 < usize::MAX,
            decreases self.entry_keys@.len() - j,
        {
            let k = self.entry_keys[j];
            if k.0 == menu && k.1 == usize::MAX {
                proof {
                    self.lemma_key_pos(j as int);
                    assert(v.entry_tags.contains_key(k));
                }
                return false;
            }
            j = j + 1;
        }
        proof {
            assert forall|k: EntryKey| #[trigger] v.entry_tags.contains_key(k) && k.0 == menu implies k.1 < usize::MAX by {
                let a = self.key_pos(k);
                assert(self.entry_keys@[a] == k);
            }
        }
        true
    }

    /// Makes room for an entry inserted at index `p` of menu `menu`: the
    /// registered entries of that menu from `p` on move down by one index,
    /// keeping their tags.
    pub fn shift_entries(&mut self, menu: usize, p: usize)
        requires
            old(self).wf(),
            keys_shiftable(old(self).view(), menu),
        ensures
            final(self).wf(),
            final(self).view() == shift_view(old(self).view(), menu, p),
    {
        let ghost v0 = self.view();
        proof {
            assert forall|j: int| 0 <= j < self.entry_keys@.len() && (#[trigger] self.entry_keys@[j]).0 == menu
                implies self.entry_keys@[j].1 < usize::MAX by {
                self.lemma_key_pos(j);
                assert(v0.entry_tags.contains_key(self.entry_keys@[j]));
            }
            assert forall|a: int, q: int|
                0 <= a < self.tag_entries@.len() && 0 <= q < self.tag_entries@[a]@.len()
                    && (#[trigger] self.tag_entries@[a]@[q]).0 == menu
                implies self.tag_entries@[a]@[q].1 < usize::MAX by {
                let k = self.tag_entries@[a]@[q];
                assert(self.has_key(k));
                assert(v0.entry_tags.contains_key(k));
            }
        }
        let mut lists: Vec<Vec<EntryKey>> = Vec::new();
        let mut i: usize = 0;
        while i < self.tag_entries.len()
            invariant
                self == old(self),
                i <= self.tag_entries@.len(),
                lists@.len() == i,
                forall|a: int, q: int|
                    0 <= a < self.tag_entries@.len() && 0 <= q < self.tag_entries@[a]@.len()
                        && (#[trigger] self.tag_entries@[a]@[q]).0 == menu
                    ==> self.tag_entries@[a]@[q].1 < usize::MAX,
                forall|a: int| 0 <= a < i ==> #[trigger] lists@[a]@
                    == self.tag_entries@[a]@.map_values(|k: EntryKey| shift_key(k, menu, p)),
            decreases self.tag_entries@.len() - i,
        {
            let shifted = shift_list(&self.tag_entries[i], menu, p);
            lists.push(shifted);
            i = i + 1;
        }
        let keys = shift_list(&self.entry_keys, menu, p);
        self.tag_entries = lists;
        self.entry_keys = keys;
        proof {
            let o = old(self);
            assert(self.tag_names == o.tag_names);
            assert(self.tag_states == o.tag_states);
            assert(self.entry_tags == o.entry_tags);
            assert forall|a: int, b: int|
                0 <= a < self.entry_keys@.len() && 0 <= b < self.entry_keys@.len() && a != b
                implies self.entry_keys@[a] != self.entry_keys@[b] by {
                lemma_shift_unshift(o.entry_keys@[a], self.entry_keys@[a], menu, p);
                lemma_shift_unshift(o.entry_keys@[b], self.entry_keys@[a], menu, p);
            }
            assert(self.wf_shape());
            assert forall|a: int, q: int|
                #![trigger self.tag_entries@[a]@[q]]
                0 <= a < self.tag_entries@.len() && 0 <= q < self.tag_entries@[a]@.len()
                implies self.has_key(self.tag_entries@[a]@[q]) by {
                let k = o.tag_entries@[a]@[q];
                assert(o.has_key(k));
                let j = o.key_pos(k);
                assert(self.entry_keys@[j] == shift_key(k, menu, p));
                assert(self.tag_entries@[a]@[q] == shift_key(k, menu, p));
            }
            assert(self.wf_listed());
            assert forall|j: int, m: int|
                #![trigger self.tags_at(j)[m]]
                0 <= j < self.entry_tags@.len() && 0 <= m < self.tags_at(j).len()
                implies self.has_tag(self.tags_at(j)[m]) by {
                assert(self.tags_at(j) == o.tags_at(j));
                assert(o.has_tag(o.tags_at(j)[m]));
            }
            assert(self.wf());
            let v1 = self.view();
            let w = shift_view(v0, menu, p);
            assert(v1.tag_states =~= w.tag_states);
            assert forall|t: Seq<char>| v1.tag_entries.contains_key(t) implies v1.tag_entries[t] == w.tag_entries[t] by {
                let a = self.tag_pos(t);
                assert(self.tag_entries@[a]@ == o.tag_entries@[a]@.map_values(|k: EntryKey| shift_key(k, menu, p)));
            }
            assert(v1.tag_entries =~= w.tag_entries);
            assert forall|k: EntryKey| #[trigger] v1.entry_tags.contains_key(k) == w.entry_tags.contains_key(k) by {
                if self.has_key(k) {
                    let j = self.key_pos(k);
                    lemma_shift_unshift(o.entry_keys@[j], k, menu, p);
                    o.lemma_key_pos(j);
                }
                if w.entry_tags.contains_key(k) {
                    let a = unshift_key(k, menu, p)->0;
                    let j = o.key_pos(a);
                    lemma_shift_unshift(a, k, menu, p);
                    assert(self.entry_keys@[j] == k);
                }
            }
            assert forall|k: EntryKey| v1.entry_tags.contains_key(k) implies v1.entry_tags[k] == w.entry_tags[k] by {
                let a = unshift_key(k, menu, p)->0;
                let j = o.key_pos(a);
                lemma_shift_unshift(a, k, menu, p);
                assert(self.entry_keys@[j] == k);
                self.lemma_key_pos(j);
                assert(self.tags_at(j) == o.tags_at(j));
            }
            assert(v1.entry_tags =~= w.entry_tags);
        }
    }
}

} // verus!
