//! Layout and bookkeeping logic for a Tk main-window toolkit: standard menu
//! bar specifications, menu tag states, button boxes, scrolled windows,
//! slide-outs and tool bars, and the integer side of the time-table chart.

pub mod stdmenubar;
pub mod text;
pub mod mainframe;
pub mod menutags;
pub mod menubar;
pub mod names;
pub mod buttonbox;
pub mod scrollwindow;
pub mod mainwindow;
pub mod chart;
