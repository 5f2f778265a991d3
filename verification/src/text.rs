use vstd::prelude::*;
use vstd::string::*;
use vstd::utf8::*;

verus! {

/// Appends one character to a string (`String::push`).
#[verifier::external_body]
pub(crate) fn push_char(s: &mut String, c: char)
    ensures
        final(s)@ == old(s)@.push(c),
{
    s.push(c);
}

/// The pieces of `s` between single spaces, as `str::split(' ')` yields
/// them: one piece more than there are spaces, empty pieces included.
pub open spec fn split_spaces(s: Seq<char>) -> Seq<Seq<char>>
    decreases s.len(),
{
    if s.len() == 0 {
        seq![Seq::<char>::empty()]
    } else {
        let r = split_spaces(s.drop_last());
        if s.last() == ' ' {
            r.push(Seq::<char>::empty())
        } else {
            r.update(r.len() - 1, r.last().push(s.last()))
        }
    }
}

/// Every split has at least one piece.
pub proof fn lemma_split_spaces_nonempty(s: Seq<char>)
    ensures
        split_spaces(s).len() >= 1,
    decreases s.len(),
{
    if s.len() > 0 {
        lemma_split_spaces_nonempty(s.drop_last());
    }
}

pub open spec fn string_views(v: Seq<String>) -> Seq<Seq<char>> {
    v.map_values(|s: String| s@)
}

/// Splits a tag list at single spaces.
pub fn split_tags(tags: &str) -> (parts: Vec<String>)
    ensures
        string_views(parts@) == split_spaces(tags@),
{
    let mut parts: Vec<String> = Vec::new();
    let mut cur = String::new();
    proof {
        assert(tags@.take(0) =~= Seq::<char>::empty());
        assert(string_views(parts@).push(cur@) =~= split_spaces(tags@.take(0)));
    }
    for c in it: tags.chars()
        invariant
            it.seq() == tags@,
            string_views(parts@).push(cur@) == split_spaces(tags@.take(it.index() as int)),
    {
        let ghost i = it.index();
        proof {
            lemma_split_spaces_nonempty(tags@.take(i as int));
            assert(tags@.take(i + 1).drop_last() =~= tags@.take(i as int));
            assert(tags@.take(i + 1).last() == c);
        }
        if c == ' ' {
            parts.push(cur);
            cur = String::new();
            proof {
                assert(string_views(parts@).push(cur@) =~= split_spaces(tags@.take(i + 1)));
            }
        } else {
            let ghost old_cur = cur@;
            push_char(&mut cur, c);
            proof {
                let r = split_spaces(tags@.take(i as int));
                assert(string_views(parts@).push(cur@) =~= r.update(r.len() - 1, r.last().push(c)));
            }
        }
    }
    proof {
        assert(tags@.take(tags@.len() as int) =~= tags@);
    }
    parts.push(cur);
    proof {
        assert(string_views(parts@) =~= split_spaces(tags@));
    }
    parts
}

} // verus!
