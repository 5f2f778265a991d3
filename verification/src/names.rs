use vstd::prelude::*;
use crate::text::string_views;

verus! {

/// The value most recently recorded under `name`.
pub open spec fn lookup_id(ids: Seq<(Seq<char>, usize)>, name: Seq<char>) -> Option<usize>
    decreases ids.len(),
{
    if ids.len() == 0 {
        None
    } else if ids.last().0 == name {
        Some(ids.last().1)
    } else {
        lookup_id(ids.drop_last(), name)
    }
}

/// The latest record of a name gives its value.
pub proof fn lemma_lookup_latest(ids: Seq<(Seq<char>, usize)>, name: Seq<char>, k: int)
    requires
        0 <= k < ids.len(),
        ids[k].0 == name,
        forall|j: int| k < j < ids.len() ==> (#[trigger] ids[j]).0 != name,
    ensures
        lookup_id(ids, name) == Some(ids[k].1),
    decreases ids.len(),
{
    if k < ids.len() - 1 {
        assert(ids.last() == ids[ids.len() - 1]);
        lemma_lookup_latest(ids.drop_last(), name, k);
    }
}

/// A name has a value exactly when it was ever recorded.
pub proof fn lemma_lookup_some(ids: Seq<(Seq<char>, usize)>, name: Seq<char>)
    ensures
        lookup_id(ids, name) is Some <==> exists|i: int| 0 <= i < ids.len() && ids[i].0 == name,
    decreases ids.len(),
{
    if ids.len() > 0 {
        lemma_lookup_some(ids.drop_last(), name);
        if ids.last().0 != name {
            if exists|i: int| 0 <= i < ids.len() && ids[i].0 == name {
                let i = choose|i: int| 0 <= i < ids.len() && ids[i].0 == name;
                assert(ids.drop_last()[i].0 == name);
            }
            if exists|i: int| 0 <= i < ids.len() - 1 && ids.drop_last()[i].0 == name {
                let i = choose|i: int| 0 <= i < ids.len() - 1 && ids.drop_last()[i].0 == name;
                assert(ids[i].0 == name);
            }
        }
    }
}

/// Names and the numbers recorded under them; a later record of a name
/// takes the place of earlier ones, as an insertion into a map does.
pub struct NameTable {
    entries: Vec<(String, usize)>,
}

impl View for NameTable {
    type V = Seq<(Seq<char>, usize)>;

    closed spec fn view(&self) -> Seq<(Seq<char>, usize)> {
        self.entries@.map_values(|p: (String, usize)| (p.0@, p.1))
    }
}

impl NameTable {
    pub fn new() -> (r: Self)
        ensures
            r@ == Seq::<(Seq<char>, usize)>::empty(),
    {
        let r = NameTable { entries: Vec::new() };
        assert(r@ =~= Seq::<(Seq<char>, usize)>::empty());
        r
    }

    /// Records `value` under `name`.
    pub fn insert(&mut self, name: &str, value: usize)
        ensures
            final(self)@ == old(self)@.push((name@, value)),
    {
        self.entries.push((name.to_owned(), value));
        assert(self@ =~= old(self)@.push((name@, value)));
    }

    /// The value most recently recorded under `name`.
    pub fn get(&self, name: &str) -> (r: Option<usize>)
        ensures
            r == lookup_id(self@, name@),
    {
        let id = name.to_owned();
        let mut i = self.entries.len();
        proof {
            assert(self@.take(i as int) =~= self@);
        }
        while i > 0
            invariant
                i <= self@.len(),
                self@.len() == self.entries@.len(),
                id@ == name@,
                lookup_id(self@, name@) == lookup_id(self@.take(i as int), name@),
            decreases i,
        {
            proof {
                assert(self@.take(i as int).drop_last() =~= self@.take(i - 1));
                assert(self@.take(i as int).last() == (self.entries@[i - 1].0@, self.entries@[i - 1].1));
            }
            if self.entries[i - 1].0 == id {
                return Some(self.entries[i - 1].1);
            }
            i = i - 1;
        }
        None
    }

    /// Whether anything was recorded under `name`.
    pub fn contains(&self, name: &str) -> (r: bool)
        ensures
            r == lookup_id(self@, name@) is Some,
    {
        self.get(name).is_some()
    }

    /// The recorded names, each once, in the order they were first recorded.
    pub fn keys(&self) -> (r: Vec<String>)
        ensures
            string_views(r@) == first_names(self@),
    {
        let mut out: Vec<String> = Vec::new();
        let mut i: usize = 0;
        proof {
            assert(self@.take(0) =~= Seq::<(Seq<char>, usize)>::empty());
            assert(string_views(out@) =~= Seq::<Seq<char>>::empty());
        }
        while i < self.entries.len()
            invariant
                i <= self@.len(),
                self@.len() == self.entries@.len(),
                string_views(out@) == first_names(self@.take(i as int)),
            decreases self@.len() - i,
        {
            proof {
                assert(self@.take(i + 1).drop_last() =~= self@.take(i as int));
                assert(self@.take(i + 1).last().0 == self.entries@[i as int].0@);
            }
            let mut seen = false;
            let mut k: usize = 0;
            while k < out.len()
                invariant
                    k <= out@.len(),
                    i < self.entries@.len(),
                    seen == exists|m: int| 0 <= m < k && out@[m]@ == self.entries@[i as int].0@,
                decreases out@.len() - k,
            {
                if out[k] == self.entries[i].0 {
                    seen = true;
                }
                k = k + 1;
            }
            let ghost old_out = string_views(out@);
            let ghost ni = self.entries@[i as int].0@;
            proof {
                if seen {
                    let m = choose|m: int| 0 <= m < out@.len() && out@[m]@ == ni;
                    assert(old_out[m] == ni);
                } else if old_out.contains(ni) {
                    let m = choose|m: int| 0 <= m < old_out.len() && old_out[m] == ni;
                    assert(out@[m]@ == ni);
                }
            }
            if !seen {
                out.push(self.entries[i].0.clone());
                proof {
                    assert(string_views(out@) =~= old_out.push(ni));
                }
            }
            i = i + 1;
        }
        proof {
            assert(self@.take(self@.len() as int) =~= self@);
        }
        out
    }
}

/// The recorded names, each once, in the order they were first recorded.
pub open spec fn first_names(ids: Seq<(Seq<char>, usize)>) -> Seq<Seq<char>>
    decreases ids.len(),
{
    if ids.len() == 0 {
        Seq::empty()
    } else {
        let r = first_names(ids.drop_last());
        if r.contains(ids.last().0) {
            r
        } else {
            r.push(ids.last().0)
        }
    }
}

/// The listed names are the recorded ones, each listed once.
pub proof fn law_first_names(ids: Seq<(Seq<char>, usize)>)
    ensures
        first_names(ids).no_duplicates(),
        forall|n: Seq<char>| first_names(ids).contains(n) <==> lookup_id(ids, n) is Some,
    decreases ids.len(),
{
    if ids.len() > 0 {
        law_first_names(ids.drop_last());
        let r = first_names(ids.drop_last());
        let l = ids.last().0;
        assert forall|n: Seq<char>| first_names(ids).contains(n) <==> lookup_id(ids, n) is Some by {
            lemma_lookup_some(ids, n);
            lemma_lookup_some(ids.drop_last(), n);
            if !r.contains(l) {
                if first_names(ids).contains(n) && n != l {
                    let m = choose|m: int| 0 <= m < r.len() + 1 && r.push(l)[m] == n;
                    assert(r[m] == n);
                }
                if r.contains(n) {
                    let m = choose|m: int| 0 <= m < r.len() && r[m] == n;
                    assert(r.push(l)[m] == n);
                }
                if n == l {
                    assert(r.push(l)[r.len() as int] == n);
                }
            }
            if lookup_id(ids.drop_last(), n) is Some {
                let i = choose|i: int| 0 <= i < ids.len() - 1 && ids.drop_last()[i].0 == n;
                assert(ids[i].0 == n);
            }
            if lookup_id(ids, n) is Some && n != l {
                let i = choose|i: int| 0 <= i < ids.len() && ids[i].0 == n;
                if i == ids.len() - 1 {
                    assert(ids[i] == ids.last());
                }
                assert(ids.drop_last()[i].0 == n);
            }
        }
    }
}

} // verus!
