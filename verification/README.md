# tt_gui

The logic behind a Tk main window for a model-railroad time-table viewer,
with contracts proved by Verus.

- `src/` is the library:
  - `stdmenubar` — menu bar specifications (`MenuType`) and the standard
    File/Edit/View/Options/Help menus;
  - `mainframe` — menu labels with `&` underlines, separators, tool bar and
    status bar decisions;
  - `menutags` — menu entry tags and the rule that an entry is enabled when
    all of its tags are;
  - `menubar` — building menus from a specification as a list of steps, menu
    ids, adding and inserting entries;
  - `names` — name tables where the latest record of a name wins;
  - `buttonbox`, `mainwindow`, `scrollwindow` — button packing, slide-outs,
    tool bars and scroll bar layout;
  - `chart` — the integer side of the time-table chart: scales, ticks, label
    fitting;
  - `text` — splitting tag lists.
- `app/` holds the Tk widgets, which carry out the library's steps, and the
  floating-point chart drawing.
- `tests/` exercises the library on concrete values.
