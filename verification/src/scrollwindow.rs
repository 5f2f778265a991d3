use vstd::prelude::*;
use vstd::string::*;

verus! {

/// Which scroll bars a scrolled window has.
#[derive(PartialEq, Eq, Structural, Clone, Copy, Debug)]
pub enum ScrollOpt {
    Off,
    Both,
    Vertical,
    Horizontal,
}

/// Which sides the scroll bars go on: the horizontal bar at the top (`N`)
/// or bottom (`S`), the vertical one at the left (`W`) or right (`E`).
#[derive(PartialEq, Eq, Structural, Clone, Copy, Debug)]
pub enum SidesOpt {
    Ne,
    En,
    Nw,
    Wn,
    Se,
    Es,
    Sw,
    Ws,
}

/// The horizontal scroll bar: whether there is one, whether it is placed,
/// whether it hides itself, and the grid row it goes in.
#[derive(PartialEq, Eq, Structural, Clone, Copy, Debug)]
pub struct HsbFlags {
    pub present: bool,
    pub packed: bool,
    pub auto: bool,
    pub row: u8,
}

/// The vertical scroll bar, with the grid column it goes in.
#[derive(PartialEq, Eq, Structural, Clone, Copy, Debug)]
pub struct VsbFlags {
    pub present: bool,
    pub packed: bool,
    pub auto: bool,
    pub column: u8,
}

pub open spec fn has_horizontal(s: ScrollOpt) -> bool {
    s == ScrollOpt::Horizontal || s == ScrollOpt::Both
}

pub open spec fn has_vertical(s: ScrollOpt) -> bool {
    s == ScrollOpt::Vertical || s == ScrollOpt::Both
}

/// The horizontal bar goes at the top.
pub open spec fn on_top(sides: SidesOpt) -> bool {
    sides == SidesOpt::Ne || sides == SidesOpt::En || sides == SidesOpt::Nw || sides == SidesOpt::Wn
}

/// The vertical bar goes at the left.
pub open spec fn on_left(sides: SidesOpt) -> bool {
    sides == SidesOpt::Nw || sides == SidesOpt::Wn || sides == SidesOpt::Sw || sides == SidesOpt::Ws
}

/// The grid row of the horizontal bar: 0 at the top, 2 at the bottom.
pub open spec fn hsb_row(sides: SidesOpt) -> u8 {
    if on_top(sides) {
        0u8
    } else {
        2u8
    }
}

/// The grid column of the vertical bar: 0 at the left, 2 at the right.
pub open spec fn vsb_column(sides: SidesOpt) -> u8 {
    if on_left(sides) {
        0u8
    } else {
        2u8
    }
}

/// The letters that name a choice of sides, in the order written: `n`
/// (top) or `s` (bottom) for the horizontal bar, `e` (right) or `w`
/// (left) for the vertical one.
pub open spec fn sides_letters(sides: SidesOpt) -> Seq<char> {
    match sides {
        SidesOpt::Ne => seq!['n', 'e'],
        SidesOpt::En => seq!['e', 'n'],
        SidesOpt::Nw => seq!['n', 'w'],
        SidesOpt::Wn => seq!['w', 'n'],
        SidesOpt::Se => seq!['s', 'e'],
        SidesOpt::Es => seq!['e', 's'],
        SidesOpt::Sw => seq!['s', 'w'],
        SidesOpt::Ws => seq!['w', 's'],
    }
}

/// The bars go where the letters of `sides` say: the horizontal bar in
/// row 0 when they hold `n` and in row 2 when they hold `s`; the vertical
/// bar in column 0 when they hold `w` and in column 2 when they hold `e`.
pub proof fn law_sides_place_bars(sides: SidesOpt)
    ensures
        sides_letters(sides).contains('n') ==> hsb_row(sides) == 0,
        sides_letters(sides).contains('s') ==> hsb_row(sides) == 2,
        sides_letters(sides).contains('w') ==> vsb_column(sides) == 0,
        sides_letters(sides).contains('e') ==> vsb_column(sides) == 2,
        sides_letters(sides).contains('n') != sides_letters(sides).contains('s'),
        sides_letters(sides).contains('w') != sides_letters(sides).contains('e'),
{
    let l = sides_letters(sides);
    assert(l.len() == 2);
    assert(l.contains(l[0]) && l.contains(l[1]));
    assert(forall|c: char| l.contains(c) ==> c == l[0] || c == l[1]);
}

/// Sets which bars there are, which hide themselves and where they go;
/// whether they are placed is left as it was.
pub fn setdata(hsb: &mut HsbFlags, vsb: &mut VsbFlags, scrollbar: ScrollOpt, auto: ScrollOpt, sides: SidesOpt)
    ensures
        final(hsb).present == has_horizontal(scrollbar),
        final(hsb).auto == has_horizontal(auto),
        final(hsb).row == hsb_row(sides),
        final(hsb).packed == old(hsb).packed,
        final(vsb).present == has_vertical(scrollbar),
        final(vsb).auto == has_vertical(auto),
        final(vsb).column == vsb_column(sides),
        final(vsb).packed == old(vsb).packed,
{
    hsb.present = match scrollbar {
        ScrollOpt::Horizontal | ScrollOpt::Both => true,
        _ => false,
    };
    hsb.auto = match auto {
        ScrollOpt::Horizontal | ScrollOpt::Both => true,
        _ => false,
    };
    hsb.row = match sides {
        SidesOpt::Ne | SidesOpt::En | SidesOpt::Nw | SidesOpt::Wn => 0,
        _ => 2,
    };
    vsb.present = match scrollbar {
        ScrollOpt::Vertical | ScrollOpt::Both => true,
        _ => false,
    };
    vsb.auto = match auto {
        ScrollOpt::Vertical | ScrollOpt::Both => true,
        _ => false,
    };
    vsb.column = match sides {
        SidesOpt::Nw | SidesOpt::Wn | SidesOpt::Sw | SidesOpt::Ws => 0,
        _ => 2,
    };
}

/// The scroll bars of a new scrolled window. Their self-hiding is not set
/// up: the `auto` choice is not used. A bar is placed when it is present
/// and the window manages its bars.
pub fn scroll_layout(scrollbar: ScrollOpt, auto: ScrollOpt, sides: SidesOpt, managed: bool) -> (r: (HsbFlags, VsbFlags))
    ensures
        r.0 == (HsbFlags {
            present: has_horizontal(scrollbar),
            packed: managed && has_horizontal(scrollbar),
            auto: false,
            row: hsb_row(sides),
        }),
        r.1 == (VsbFlags {
            present: has_vertical(scrollbar),
            packed: managed && has_vertical(scrollbar),
            auto: false,
            column: vsb_column(sides),
        }),
{
    let mut hsb = HsbFlags { present: false, packed: false, auto: false, row: 0 };
    let mut vsb = VsbFlags { present: false, packed: false, auto: false, column: 0 };
    setdata(&mut hsb, &mut vsb, scrollbar, ScrollOpt::Off, sides);
    if managed {
        hsb.packed = hsb.present;
        vsb.packed = vsb.present;
    } else {
        hsb.packed = false;
        vsb.packed = false;
    }
    (hsb, vsb)
}

/// The Tcl commands that tie a scrolled widget and its two bars together.
pub struct ScrollCommands {
    /// The horizontal bar's `-command`: the widget's `xview`.
    pub hcommand: String,
    /// The vertical bar's `-command`: the widget's `yview`.
    pub vcommand: String,
    /// The widget's `-xscrollcommand`: the horizontal bar's `set`.
    pub xscrollcommand: String,
    /// The widget's `-yscrollcommand`: the vertical bar's `set`.
    pub yscrollcommand: String,
}

/// The commands for a widget at path `widget` with bars at `hscroll` and
/// `vscroll`.
pub fn scroll_commands(widget: &str, hscroll: &str, vscroll: &str) -> (r: ScrollCommands)
    ensures
        r.hcommand@ == widget@ + " xview"@,
        r.vcommand@ == widget@ + " yview"@,
        r.xscrollcommand@ == hscroll@ + " set"@,
        r.yscrollcommand@ == vscroll@ + " set"@,
{
    let mut hcommand = widget.to_owned();
    hcommand.append(" xview");
    let mut vcommand = widget.to_owned();
    vcommand.append(" yview");
    let mut xscrollcommand = hscroll.to_owned();
    xscrollcommand.append(" set");
    let mut yscrollcommand = vscroll.to_owned();
    yscrollcommand.append(" set");
    ScrollCommands { hcommand, vcommand, xscrollcommand, yscrollcommand }
}

} // verus!
