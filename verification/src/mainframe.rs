use vstd::prelude::*;
use vstd::string::*;
use vstd::utf8::*;
use crate::text::push_char;

verus! {

/// The state a menu tag, or a tool bar's buttons, can be set to.
#[derive(PartialEq, Eq, Structural, Clone, Copy, Debug)]
pub enum StateType {
    Disabled,
    Normal,
}

/// Where a main frame draws separators: above the user frame, below it,
/// both or neither.
#[derive(PartialEq, Eq, Structural, Clone, Copy, Debug)]
pub enum SeparatorType {
    Off,
    Top,
    Bottom,
    Both,
}

/// What the status bar shows.
#[derive(PartialEq, Eq, Structural, Clone, Copy, Debug)]
pub enum StatusShowType {
    Off,
    Status,
    Progression,
}

/// `name` holds no `&`.
pub open spec fn no_ampersand(name: Seq<char>) -> bool {
    forall|i: int| 0 <= i < name.len() ==> name[i] != '&'
}

/// `k` is the position of the first `&` in `name`.
pub open spec fn first_ampersand(name: Seq<char>, k: int) -> bool {
    &&& 0 <= k < name.len()
    &&& name[k] == '&'
    &&& no_ampersand(name.take(k))
}

/// A menu label without its first `&`, and the byte offset at which that
/// `&` stood; the label unchanged and no offset when it has none.
pub open spec fn parsed_name(name: Seq<char>) -> (Seq<char>, Option<i32>) {
    if no_ampersand(name) {
        (name, None)
    } else {
        let k = choose|k: int| first_ampersand(name, k);
        (name.remove(k), Some(#[verifier::truncate] ((encode_utf8(name.take(k)).len() as usize) as i32)))
    }
}

/// Splits a menu label at its first `&`: the label without that `&`, and
/// the byte offset at which it stood, which is where the underline goes.
pub fn parse_name(name: &str) -> (r: (String, Option<i32>))
    ensures
        (r.0@, r.1) == parsed_name(name@),
        no_ampersand(name@) ==> r.0@ == name@ && r.1 is None,
        forall|k: int|
            first_ampersand(name@, k) ==> r.0@ == name@.remove(k) && r.1 == Some(
                #[verifier::truncate] ((encode_utf8(name@.take(k)).len() as usize) as i32),
            ),
{
    let mut label = String::new();
    let mut under: Option<i32> = None;
    let ghost mut pos: int = 0;
    for c in it: name.chars()
        invariant
            it.seq() == name@,
            under is None ==> label@ == name@.take(it.index() as int) && no_ampersand(label@),
            under is Some ==> {
                &&& first_ampersand(name@, pos)
                &&& pos < it.index()
                &&& under == Some(#[verifier::truncate] ((encode_utf8(name@.take(pos)).len() as usize) as i32))
                &&& label@ == name@.take(it.index() as int).remove(pos)
            },
    {
        let ghost i = it.index();
        proof {
            assert(name@.take(i + 1) =~= name@.take(i as int).push(c));
        }
        if c == '&' && under.is_none() {
            let n = label.as_str().len();
            under = Some(#[verifier::truncate] (n as i32));
            proof {
                pos = i as int;
                assert(label@ =~= name@.take(pos));
                assert(first_ampersand(name@, pos));
                assert(name@.take(i + 1).remove(pos) =~= label@);
            }
        } else {
            push_char(&mut label, c);
            proof {
                if under is Some {
                    assert(name@.take(i + 1).remove(pos) =~= name@.take(i as int).remove(pos).push(c));
                }
            }
        }
    }
    proof {
        assert(name@.take(name@.len() as int) =~= name@);
        if under is Some {
            assert(!no_ampersand(name@)) by {
                assert(name@[pos] == '&');
            }
            assert forall|k: int| first_ampersand(name@, k) implies k == pos by {
                if k < pos {
                    assert(name@.take(pos)[k] == '&');
                } else if pos < k {
                    assert(name@.take(k)[pos] == '&');
                }
            }
        } else {
            assert forall|k: int| first_ampersand(name@, k) implies false by {
                assert(label@[k] == '&');
            }
            assert(no_ampersand(name@));
        }
    }
    (label, under)
}

/// Whether a main frame draws the separator above its user frame, and the
/// one below it.
pub fn separator_lines(separator: SeparatorType) -> (r: (bool, bool))
    ensures
        r.0 == (separator == SeparatorType::Top || separator == SeparatorType::Both),
        r.1 == (separator == SeparatorType::Bottom || separator == SeparatorType::Both),
{
    let top = match separator {
        SeparatorType::Top | SeparatorType::Both => true,
        _ => false,
    };
    let bottom = match separator {
        SeparatorType::Bottom | SeparatorType::Both => true,
        _ => false,
    };
    (top, bottom)
}

/// What showing or hiding a tool bar does to its frame.
#[derive(PartialEq, Eq, Structural, Clone, Copy, Debug)]
pub enum ToolbarChange {
    /// Take the frame out of the grid.
    Forget,
    /// Put the frame back into the grid, in the given row.
    Grid(i32),
    /// Leave it as it is.
    Keep,
}

/// Showing tool bar `index` (of `count`) when it is out of the grid puts it
/// back in its row; hiding it when it is in the grid takes it out; an
/// unknown tool bar, or one already as asked, is left alone.
pub fn showtoolbar(index: usize, count: usize, show: bool, gridded: bool) -> (r: ToolbarChange)
    ensures
        index >= count ==> r == ToolbarChange::Keep,
        index < count && !show && gridded ==> r == ToolbarChange::Forget,
        index < count && show && !gridded ==> r == ToolbarChange::Grid(#[verifier::truncate] (index as i32)),
        index < count && show == gridded ==> r == ToolbarChange::Keep,
{
    if index >= count {
        ToolbarChange::Keep
    } else if !show && gridded {
        ToolbarChange::Forget
    } else if show && !gridded {
        ToolbarChange::Grid(#[verifier::truncate] (index as i32))
    } else {
        ToolbarChange::Keep
    }
}

/// What showing the status bar in a given way does.
#[derive(PartialEq, Eq, Structural, Clone, Copy, Debug)]
pub struct StatusBarChange {
    /// Pack the status bar (else take it out).
    pub show_status: bool,
    /// Take the progress bar out.
    pub hide_progress: bool,
    /// Pack the progress frame.
    pub show_progress_frame: bool,
}

/// Hiding the status bar takes it out; showing the status packs the bar
/// and takes the progress bar out; showing progress packs the bar and the
/// progress frame.
pub fn showstatusbar(name: StatusShowType) -> (r: StatusBarChange)
    ensures
        r.show_status == (name != StatusShowType::Off),
        r.hide_progress == (name == StatusShowType::Status),
        r.show_progress_frame == (name == StatusShowType::Progression),
{
    match name {
        StatusShowType::Off => StatusBarChange { show_status: false, hide_progress: false, show_progress_frame: false },
        StatusShowType::Status => StatusBarChange { show_status: true, hide_progress: true, show_progress_frame: false },
        StatusShowType::Progression => StatusBarChange { show_status: true, hide_progress: false, show_progress_frame: true },
    }
}

} // verus!
