use vstd::prelude::*;
use vstd::string::*;

verus! {

/// Width of the boot progress overlay, in character cells.
pub const QUICKINIT_WIDTH: usize = 54;
/// Height of the boot progress overlay, in character cells.
pub const QUICKINIT_HEIGHT: usize = 9;
pub const BORDER_COLOR: u32 = 0x5f87ff;
pub const TITLE_COLOR: u32 = 0x9cdcfe;
pub const TEXT_COLOR: u32 = 0xd8dee9;
pub const PROGRESS_COLOR: u32 = 0x7ee787;
pub const EMPTY_COLOR: u32 = 0x68707c;
pub const PERCENT_COLOR: u32 = 0xffd580;

#[derive(Clone, Copy, Debug, PartialEq, Eq, Structural)]
pub enum Status {
    Pass,
    Fail,
    Warn,
    Spin(u8),
}

pub open spec fn spec_label(status: Status) -> &'static str {
    match status {
        Status::Pass => "  OK  ",
        Status::Fail => "FAILED",
        Status::Warn => " WARN ",
        Status::Spin(frame) => {
            let f = frame % 8;
            if f == 0 {
                "  >   "
            } else if f == 1 {
                "   >  "
            } else if f == 2 {
                "    > "
            } else if f == 3 {
                "     >"
            } else if f == 4 {
                "    < "
            } else if f == 5 {
                "   <  "
            } else if f == 6 {
                "  <   "
            } else {
                " <    "
            }
        },
    }
}

pub open spec fn spec_color(status: Status) -> &'static str {
    match status {
        Status::Pass => "\x1b[92m",
        Status::Fail => "\x1b[91m",
        Status::Warn => "\x1b[93m",
        Status::Spin(_) => "\x1b[97m",
    }
}

impl Status {
    /// The six-column label between the brackets; a spinner cycles through eight
    /// frames.
    pub fn label(self) -> (r: &'static str)
        ensures
            r == spec_label(self),
    {
        match self {
            Status::Pass => "  OK  ",
            Status::Fail => "FAILED",
            Status::Warn => " WARN ",
            Status::Spin(frame) => {
                let f = frame % 8;
                if f == 0 {
                    "  >   "
                } else if f == 1 {
                    "   >  "
                } else if f == 2 {
                    "    > "
                } else if f == 3 {
                    "     >"
                } else if f == 4 {
                    "    < "
                } else if f == 5 {
                    "   <  "
                } else if f == 6 {
                    "  <   "
                } else {
                    " <    "
                }
            },
        }
    }

    /// The terminal colour sequence of the label.
    pub fn color(self) -> (r: &'static str)
        ensures
            r == spec_color(self),
    {
        match self {
            Status::Pass => "\x1b[92m",
            Status::Fail => "\x1b[91m",
            Status::Warn => "\x1b[93m",
            Status::Spin(_) => "\x1b[97m",
        }
    }
}

/// The bracketed, coloured status label that starts a line.
pub fn prefix(status: Status) -> (r: String)
    ensures
        r@ == "\x1b[90m[\x1b[0m"@ + spec_color(status)@ + spec_label(status)@
            + "\x1b[0m\x1b[90m]\x1b[0m "@,
{
    let mut line = String::from_str("\x1b[90m[\x1b[0m");
    line.append(status.color());
    line.append(status.label());
    line.append("\x1b[0m\x1b[90m]\x1b[0m ");
    line
}

/// The text a status line prints: the line cleared, the label, the message.
pub fn status(kind: Status, message: &str) -> (r: String)
    ensures
        r@ == "\r\x1b[2K"@ + "\x1b[90m[\x1b[0m"@ + spec_color(kind)@ + spec_label(kind)@
            + "\x1b[0m\x1b[90m]\x1b[0m "@ + message@ + "\n"@,
{
    let mut line = String::from_str("\r\x1b[2K");
    let head = prefix(kind);
    line.append(head.as_str());
    line.append(message);
    line.append("\n");
    proof {
        assert(line@ == "\r\x1b[2K"@ + "\x1b[90m[\x1b[0m"@ + spec_color(kind)@ + spec_label(kind)@
            + "\x1b[0m\x1b[90m]\x1b[0m "@ + message@ + "\n"@);
    }
    line
}

pub fn ok(message: &str) -> (r: String)
    ensures
        r@ == "\r\x1b[2K"@ + "\x1b[90m[\x1b[0m"@ + spec_color(Status::Pass)@ + spec_label(Status::Pass)@
            + "\x1b[0m\x1b[90m]\x1b[0m "@ + message@ + "\n"@,
{
    status(Status::Pass, message)
}

pub fn fail(message: &str) -> (r: String)
    ensures
        r@ == "\r\x1b[2K"@ + "\x1b[90m[\x1b[0m"@ + spec_color(Status::Fail)@ + spec_label(
            Status::Fail,
        )@ + "\x1b[0m\x1b[90m]\x1b[0m "@ + message@ + "\n"@,
{
    status(Status::Fail, message)
}

pub fn warn(message: &str) -> (r: String)
    ensures
        r@ == "\r\x1b[2K"@ + "\x1b[90m[\x1b[0m"@ + spec_color(Status::Warn)@ + spec_label(
            Status::Warn,
        )@ + "\x1b[0m\x1b[90m]\x1b[0m "@ + message@ + "\n"@,
{
    status(Status::Warn, message)
}

/// The four cells that show a percentage, right-aligned, capped at 100.
pub open spec fn spec_percent_cells(percent: u8) -> Seq<u8> {
    let p = if percent > 100 {
        100
    } else {
        percent
    };
    if p == 100 {
        seq![49u8, 48u8, 48u8, 37u8]
    } else if p >= 10 {
        seq![32u8, (48 + p / 10) as u8, (48 + p % 10) as u8, 37u8]
    } else {
        seq![32u8, 32u8, (48 + p) as u8, 37u8]
    }
}

pub fn percent_cells(percent: u8) -> (r: [u8; 4])
    ensures
        r@ == spec_percent_cells(percent),
{
    let p = if percent > 100 {
        100
    } else {
        percent
    };
    if p == 100 {
        [49u8, 48u8, 48u8, 37u8]
    } else if p >= 10 {
        [32u8, 48u8 + p / 10, 48u8 + p % 10, 37u8]
    } else {
        [32u8, 32u8, 48u8 + p, 37u8]
    }
}

/// Where the overlay's top-left cell goes on a console of `columns` by `rows`
/// cells: centred, when the console has a cell of room on every side.
#[verifier::allow_in_spec]
pub fn quickinit_overlay_geometry(columns: usize, rows: usize) -> Option<(usize, usize)>
    returns
        (if columns >= QUICKINIT_WIDTH + 2 && rows >= QUICKINIT_HEIGHT + 2 {
            Some((((columns - QUICKINIT_WIDTH) / 2) as usize, ((rows - QUICKINIT_HEIGHT) / 2) as usize))
        } else {
            None
        }),
{
    if columns >= QUICKINIT_WIDTH + 2 && rows >= QUICKINIT_HEIGHT + 2 {
        Some(((columns - QUICKINIT_WIDTH) / 2, (rows - QUICKINIT_HEIGHT) / 2))
    } else {
        None
    }
}

#[derive(Clone, Copy, Debug, PartialEq, Eq, Structural)]
pub enum Glyph {
    Byte(u8),
    Symbol(char),
}

/// One character cell to paint.
#[derive(Clone, Copy, Debug, PartialEq, Eq, Structural)]
pub struct Cell {
    pub column: usize,
    pub row: usize,
    pub glyph: Glyph,
    pub color: u32,
}

/// The boot progress overlay: its console, the stage and percentage to show, and
/// what was last painted, so that a redraw paints only what changed.
pub struct Overlay {
    pub console: Option<(usize, usize)>,
    pub active: bool,
    pub stage: &'static str,
    pub percent: u8,
    pub drawn: bool,
    pub rendered_stage: &'static str,
    pub rendered_percent: u8,
    pub rendered_progress: bool,
}

/// A cell lies inside the overlay whose top-left cell is (`left`, `top`).
pub open spec fn in_box(cell: Cell, left: usize, top: usize) -> bool {
    left <= cell.column < left + QUICKINIT_WIDTH && top <= cell.row < top + QUICKINIT_HEIGHT
}

/// Two strings with the same bytes.
pub fn same_text(a: &str, b: &str) -> (r: bool)
    ensures
        r == (a.spec_bytes() == b.spec_bytes()),
{
    let x = a.as_bytes();
    let y = b.as_bytes();
    if x.len() != y.len() {
        return false;
    }
    let mut i: usize = 0;
    while i < x.len()
        invariant
            i <= x@.len(),
            x@.len() == y@.len(),
            x@ == a.spec_bytes(),
            y@ == b.spec_bytes(),
            forall|k: int| 0 <= k < i ==> x@[k] == y@[k],
        decreases x@.len() - i,
    {
        if x[i] != y[i] {
            return false;
        }
        i = i + 1;
    }
    assert(x@ == y@);
    true
}

/// Columns inside the frame.
pub const INNER_WIDTH: usize = 52;
/// Cells of the progress bar.
pub const BAR_WIDTH: usize = 38;

/// The first `n` blank cells that clear the inside of the frame, row by row.
pub open spec fn blank_cells(left: usize, top: usize, n: nat) -> Seq<Cell>
    decreases n,
{
    if n == 0 {
        Seq::empty()
    } else {
        let k = n - 1;
        blank_cells(left, top, (n - 1) as nat).push(
            Cell {
                column: (left + 1 + k % 52) as usize,
                row: (top + 1 + k / 52) as usize,
                glyph: Glyph::Byte(32u8),
                color: TEXT_COLOR,
            },
        )
    }
}

/// The top and bottom edges of the frame for its first `n` columns.
pub open spec fn edge_rows(left: usize, top: usize, n: nat) -> Seq<Cell>
    decreases n,
{
    if n == 0 {
        Seq::empty()
    } else {
        let c = n - 1;
        edge_rows(left, top, (n - 1) as nat).push(
            Cell { column: (left + c) as usize, row: top, glyph: Glyph::Symbol('─'), color: BORDER_COLOR },
        ).push(
            Cell {
                column: (left + c) as usize,
                row: (top + QUICKINIT_HEIGHT - 1) as usize,
                glyph: Glyph::Symbol('─'),
                color: BORDER_COLOR,
            },
        )
    }
}

/// The left and right edges of the frame for its rows 1 to `n`.
pub open spec fn edge_columns(left: usize, top: usize, n: nat) -> Seq<Cell>
    decreases n,
{
    if n == 0 {
        Seq::empty()
    } else {
        edge_columns(left, top, (n - 1) as nat).push(
            Cell { column: left, row: (top + n) as usize, glyph: Glyph::Symbol('│'), color: BORDER_COLOR },
        ).push(
            Cell {
                column: (left + QUICKINIT_WIDTH - 1) as usize,
                row: (top + n) as usize,
                glyph: Glyph::Symbol('│'),
                color: BORDER_COLOR,
            },
        )
    }
}

/// The frame's four corners.
pub open spec fn corner_cells(left: usize, top: usize) -> Seq<Cell> {
    let right = (left + QUICKINIT_WIDTH - 1) as usize;
    let bottom = (top + QUICKINIT_HEIGHT - 1) as usize;
    seq![
        Cell { column: left, row: top, glyph: Glyph::Symbol('┌'), color: BORDER_COLOR },
        Cell { column: right, row: top, glyph: Glyph::Symbol('┐'), color: BORDER_COLOR },
        Cell { column: left, row: bottom, glyph: Glyph::Symbol('└'), color: BORDER_COLOR },
        Cell { column: right, row: bottom, glyph: Glyph::Symbol('┘'), color: BORDER_COLOR },
    ]
}

/// The first `n` cells of a text line `line` rows below the top, from the fourth
/// column on: the text's bytes, then blanks.
pub open spec fn text_cells(left: usize, top: usize, line: int, text: Seq<u8>, color: u32, n: nat) -> Seq<Cell>
    decreases n,
{
    if n == 0 {
        Seq::empty()
    } else {
        let k = n - 1;
        text_cells(left, top, line, text, color, (n - 1) as nat).push(
            Cell {
                column: (left + 3 + k) as usize,
                row: (top + line) as usize,
                glyph: Glyph::Byte(if k < text.len() { text[k] } else { 32u8 }),
                color,
            },
        )
    }
}

/// The whole frame: cleared inside, edges, corners and the title.
pub open spec fn frame_cells(left: usize, top: usize) -> Seq<Cell> {
    let title = "QUICKINIT".spec_bytes();
    blank_cells(left, top, 364) + edge_rows(left, top, 54) + edge_columns(left, top, 7) + corner_cells(left, top)
        + text_cells(left, top, 1, title, TITLE_COLOR, vstd::math::min(title.len() as int, 50) as nat)
}

/// How many of the bar's cells are filled at `percent`.
pub open spec fn bar_fill(percent: u8) -> int {
    BAR_WIDTH * (percent as int) / 100
}

/// The bar's ends.
pub open spec fn bar_ends(left: usize, top: usize) -> Seq<Cell> {
    seq![
        Cell { column: (left + 3) as usize, row: (top + 5) as usize, glyph: Glyph::Symbol('│'), color: BORDER_COLOR },
        Cell {
            column: (left + 4 + BAR_WIDTH) as usize,
            row: (top + 5) as usize,
            glyph: Glyph::Symbol('│'),
            color: BORDER_COLOR,
        },
    ]
}

/// Of the bar's first `n` cells, those to paint: all of them when `all`, else those
/// whose fill changed from `old_filled` to `filled` cells.
pub open spec fn bar_cells(left: usize, top: usize, filled: int, old_filled: int, all: bool, n: nat) -> Seq<Cell>
    decreases n,
{
    if n == 0 {
        Seq::empty()
    } else {
        let i = n - 1;
        let before = bar_cells(left, top, filled, old_filled, all, (n - 1) as nat);
        if all || (i < filled) != (i < old_filled) {
            before.push(
                Cell {
                    column: (left + 4 + i) as usize,
                    row: (top + 5) as usize,
                    glyph: Glyph::Symbol(if i < filled { '■' } else { '□' }),
                    color: if i < filled { PROGRESS_COLOR } else { EMPTY_COLOR },
                },
            )
        } else {
            before
        }
    }
}

/// Of the first `n` percentage characters, those to paint: all of them when `all`,
/// else those that differ between `now` and `before`.
pub open spec fn percent_line(left: usize, top: usize, now: Seq<u8>, before: Seq<u8>, all: bool, n: nat) -> Seq<Cell>
    decreases n,
{
    if n == 0 {
        Seq::empty()
    } else {
        let i = n - 1;
        let earlier = percent_line(left, top, now, before, all, (n - 1) as nat);
        if all || now[i] != before[i] {
            earlier.push(
                Cell {
                    column: (left + 8 + BAR_WIDTH + i) as usize,
                    row: (top + 5) as usize,
                    glyph: Glyph::Byte(now[i]),
                    color: PERCENT_COLOR,
                },
            )
        } else {
            earlier
        }
    }
}

/// The cells one draw paints, in order: the frame on the first draw, the stage line when
/// it is new, the bar's ends when the bar is new, and the bar cells and percentage
/// characters that changed (all of them on the first draw).
pub open spec fn overlay_cells(
    left: usize,
    top: usize,
    first: bool,
    stage_changed: bool,
    stage: Seq<u8>,
    progress_drawn: bool,
    percent: u8,
    old_percent: u8,
) -> Seq<Cell> {
    (if first { frame_cells(left, top) } else { Seq::empty() }) + (if first || stage_changed {
        text_cells(left, top, 3, stage, TEXT_COLOR, 50)
    } else {
        Seq::empty()
    }) + (if first || !progress_drawn { bar_ends(left, top) } else { Seq::empty() }) + bar_cells(
        left,
        top,
        bar_fill(percent),
        bar_fill(old_percent),
        first,
        BAR_WIDTH as nat,
    ) + percent_line(left, top, spec_percent_cells(percent), spec_percent_cells(old_percent), first, 4)
}


impl Overlay {
    /// The overlay for a console of the given size, or an inactive one without a
    /// framebuffer console.
    pub fn begin(console: Option<(usize, usize)>) -> (r: Self)
        ensures
            r.console == console,
            r.active == console is Some,
            r.stage == "starting quickinit",
            r.percent == 0,
            !r.drawn && !r.rendered_progress && r.rendered_percent == 0,
    {
        Overlay {
            console,
            active: console.is_some(),
            stage: "starting quickinit",
            percent: 0,
            drawn: false,
            rendered_stage: "",
            rendered_percent: 0,
            rendered_progress: false,
        }
    }

    /// Where the overlay sits, when it is shown.
    pub open spec fn placement(&self) -> Option<(usize, usize)> {
        if !self.active {
            None
        } else {
            match self.console {
                None => None,
                Some((columns, rows)) => quickinit_overlay_geometry(columns, rows),
            }
        }
    }

    pub fn set_stage(&mut self, stage: &'static str, percent: u8)
        ensures
            final(self).stage == stage,
            final(self).percent == (if percent > 100 {
                100
            } else {
                percent
            }),
            final(self).placement() == old(self).placement(),
    {
        self.stage = stage;
        self.percent = if percent > 100 {
            100
        } else {
            percent
        };
    }

    /// The stage after quickinit: system services, or the recovery path.
    pub fn finish(&mut self, success: bool)
        ensures
            final(self).stage == (if success {
                "starting system services"
            } else {
                "recovery path"
            }),
            final(self).percent == (if success {
                92u8
            } else {
                88u8
            }),
            final(self).placement() == old(self).placement(),
    {
        self.stage = if success {
            "starting system services"
        } else {
            "recovery path"
        };
        self.percent = if success {
            92
        } else {
            88
        };
    }

    pub fn complete(&mut self, success: bool)
        ensures
            final(self).stage == (if success {
                "system ready"
            } else {
                "recovery ready"
            }),
            final(self).percent == 100,
            final(self).placement() == old(self).placement(),
    {
        self.stage = if success {
            "system ready"
        } else {
            "recovery ready"
        };
        self.percent = 100;
    }

    /// Shows a crash stage, when the overlay is shown.
    pub fn crash(&mut self, stage: &'static str)
        ensures
            old(self).active ==> final(self).stage == stage && final(self).percent == 100,
            !old(self).active ==> *final(self) == *old(self),
            final(self).placement() == old(self).placement(),
    {
        if !self.active {
            return;
        }
        self.stage = stage;
        self.percent = 100;
    }

    /// Hands the screen to the shell; returns whether the console must be redrawn.
    pub fn shell(&mut self) -> (r: bool)
        ensures
            r == old(self).console is Some,
            !final(self).active && !final(self).drawn,
    {
        self.active = false;
        self.drawn = false;
        self.console.is_some()
    }

    /// The cell at (`column`, `row`) is covered by the shown overlay.
    pub fn contains(&self, column: usize, row: usize) -> (r: bool)
        ensures
            r == (self.placement() matches Some((left, top)) && left <= column < left
                + QUICKINIT_WIDTH && top <= row < top + QUICKINIT_HEIGHT),
    {
        if !self.active {
            return false;
        }
        match self.console {
            None => false,
            Some((columns, rows)) => match quickinit_overlay_geometry(columns, rows) {
                None => false,
                Some((left, top)) => column >= left && column < left + QUICKINIT_WIDTH && row
                    >= top && row < top + QUICKINIT_HEIGHT,
            },
        }
    }

    /// The cells to paint to bring the overlay up to date (see `overlay_cells`): the
    /// frame and title on the first draw, the stage line when it changed, and the bar
    /// cells and percentage digits that changed.
    pub fn draw(&mut self) -> (r: Vec<Cell>)
        ensures
            old(self).placement() is None ==> r@.len() == 0 && *final(self) == *old(self),
            old(self).placement() matches Some((left, top)) ==> {
                &&& r@ == overlay_cells(
                    left,
                    top,
                    !old(self).drawn,
                    old(self).rendered_stage.spec_bytes() != old(self).stage.spec_bytes(),
                    old(self).stage.spec_bytes(),
                    old(self).rendered_progress,
                    old(self).percent,
                    old(self).rendered_percent,
                )
                &&& forall|i: int| 0 <= i < r@.len() ==> in_box(#[trigger] r@[i], left, top)
                &&& final(self).drawn && final(self).rendered_progress
                &&& final(self).rendered_stage.spec_bytes() == old(self).stage.spec_bytes()
                &&& final(self).rendered_percent == old(self).percent
                &&& final(self).placement() == old(self).placement()
                &&& old(self).drawn && old(self).rendered_progress && old(self).rendered_stage.spec_bytes() == old(self).stage.spec_bytes() && old(self).rendered_percent == old(self).percent && old(self).percent <= 100 ==> r@.len()
                    == 0
            },
    {
        let mut cells: Vec<Cell> = Vec::new();
        if !self.active {
            return cells;
        }
        let (columns, rows) = match self.console {
            None => return cells,
            Some(console) => console,
        };
        let (left, top) = match quickinit_overlay_geometry(columns, rows) {
            None => return cells,
            Some(place) => place,
        };
        let first_draw = !self.drawn;
        let right = left + QUICKINIT_WIDTH - 1;
        if first_draw {
            let mut row: usize = 1;
            while row < QUICKINIT_HEIGHT - 1
                invariant
                    1 <= row <= QUICKINIT_HEIGHT - 1,
                    left + QUICKINIT_WIDTH <= usize::MAX,
                    top + QUICKINIT_HEIGHT <= usize::MAX,
                    cells@ == blank_cells(left, top, ((row - 1) * 52) as nat),
                    forall|i: int| 0 <= i < cells@.len() ==> in_box(#[trigger] cells@[i], left, top),
                decreases QUICKINIT_HEIGHT - row,
            {
                let mut column: usize = 1;
                while column < QUICKINIT_WIDTH - 1
                    invariant
                        1 <= row < QUICKINIT_HEIGHT - 1,
                        1 <= column <= QUICKINIT_WIDTH - 1,
                        left + QUICKINIT_WIDTH <= usize::MAX,
                        top + QUICKINIT_HEIGHT <= usize::MAX,
                        cells@ == blank_cells(left, top, ((row - 1) * 52 + column - 1) as nat),
                        forall|i: int|
                            0 <= i < cells@.len() ==> in_box(#[trigger] cells@[i], left, top),
                    decreases QUICKINIT_WIDTH - column,
                {
                    proof {
                        let k = (row - 1) * 52 + column - 1;
                        assert(k % 52 == column - 1 && k / 52 == row - 1) by (nonlinear_arith)
                            requires
                                k == (row - 1) * 52 + column - 1,
                                1 <= column < 53,
                                row >= 1,
                        ;
                    }
                    cells.push(
                        Cell {
                            column: left + column,
                            row: top + row,
                            glyph: Glyph::Byte(32u8),
                            color: TEXT_COLOR,
                        },
                    );
                    column = column + 1;
                }
                row = row + 1;
            }
            let ghost frame_start = cells@;
            let mut column: usize = 0;
            while column < QUICKINIT_WIDTH
                invariant
                    column <= QUICKINIT_WIDTH,
                    left + QUICKINIT_WIDTH <= usize::MAX,
                    top + QUICKINIT_HEIGHT <= usize::MAX,
                    cells@ == frame_start + edge_rows(left, top, column as nat),
                    forall|i: int| 0 <= i < cells@.len() ==> in_box(#[trigger] cells@[i], left, top),
                decreases QUICKINIT_WIDTH - column,
            {
                cells.push(
                    Cell { column: left + column, row: top, glyph: Glyph::Symbol('─'), color: BORDER_COLOR },
                );
                cells.push(
                    Cell {
                        column: left + column,
                        row: top + QUICKINIT_HEIGHT - 1,
                        glyph: Glyph::Symbol('─'),
                        color: BORDER_COLOR,
                    },
                );
                column = column + 1;
            }
            let ghost rows_done = cells@;
            let mut row: usize = 1;
            while row < QUICKINIT_HEIGHT - 1
                invariant
                    1 <= row <= QUICKINIT_HEIGHT - 1,
                    left + QUICKINIT_WIDTH <= usize::MAX,
                    top + QUICKINIT_HEIGHT <= usize::MAX,
                    cells@ == rows_done + edge_columns(left, top, (row - 1) as nat),
                    forall|i: int| 0 <= i < cells@.len() ==> in_box(#[trigger] cells@[i], left, top),
                decreases QUICKINIT_HEIGHT - row,
            {
                cells.push(
                    Cell { column: left, row: top + row, glyph: Glyph::Symbol('│'), color: BORDER_COLOR },
                );
                cells.push(
                    Cell {
                        column: left + QUICKINIT_WIDTH - 1,
                        row: top + row,
                        glyph: Glyph::Symbol('│'),
                        color: BORDER_COLOR,
                    },
                );
                row = row + 1;
            }
            let ghost columns_done = cells@;
            cells.push(Cell { column: left, row: top, glyph: Glyph::Symbol('┌'), color: BORDER_COLOR });
            cells.push(
                Cell { column: right, row: top, glyph: Glyph::Symbol('┐'), color: BORDER_COLOR },
            );
            cells.push(
                Cell {
                    column: left,
                    row: top + QUICKINIT_HEIGHT - 1,
                    glyph: Glyph::Symbol('└'),
                    color: BORDER_COLOR,
                },
            );
            cells.push(
                Cell {
                    column: right,
                    row: top + QUICKINIT_HEIGHT - 1,
                    glyph: Glyph::Symbol('┘'),
                    color: BORDER_COLOR,
                },
            );
            assert(cells@ == columns_done + corner_cells(left, top));
            let ghost corners_done = cells@;
            let title = "QUICKINIT".as_bytes();
            let mut offset: usize = 0;
            while offset < title.len()
                invariant
                    offset <= title@.len(),
                    offset <= QUICKINIT_WIDTH - 4,
                    right == left + QUICKINIT_WIDTH - 1,
                    left + QUICKINIT_WIDTH <= usize::MAX,
                    top + QUICKINIT_HEIGHT <= usize::MAX,
                    cells@ == corners_done + text_cells(left, top, 1, title@, TITLE_COLOR, offset as nat),
                    forall|i: int| 0 <= i < cells@.len() ==> in_box(#[trigger] cells@[i], left, top),
                ensures
                    cells@ == corners_done + text_cells(
                        left,
                        top,
                        1,
                        title@,
                        TITLE_COLOR,
                        vstd::math::min(title@.len() as int, 50) as nat,
                    ),
                    forall|i: int| 0 <= i < cells@.len() ==> in_box(#[trigger] cells@[i], left, top),
                decreases title@.len() - offset,
            {
                if offset >= QUICKINIT_WIDTH - 4 {
                    break;
                }
                cells.push(
                    Cell {
                        column: left + 3 + offset,
                        row: top + 1,
                        glyph: Glyph::Byte(title[offset]),
                        color: TITLE_COLOR,
                    },
                );
                offset = offset + 1;
            }
            proof {
                assert(cells@ =~= frame_cells(left, top));
            }
            self.drawn = true;
        }
        let ghost after_frame = cells@;
        let stage = self.stage;
        let stage_changed = !same_text(self.rendered_stage, stage);
        if first_draw || stage_changed {
            let text = stage.as_bytes();
            let mut offset: usize = 0;
            while offset < QUICKINIT_WIDTH - 4
                invariant
                    offset <= QUICKINIT_WIDTH - 4,
                    left + QUICKINIT_WIDTH <= usize::MAX,
                    top + QUICKINIT_HEIGHT <= usize::MAX,
                    cells@ == after_frame + text_cells(left, top, 3, text@, TEXT_COLOR, offset as nat),
                    forall|i: int| 0 <= i < cells@.len() ==> in_box(#[trigger] cells@[i], left, top),
                decreases QUICKINIT_WIDTH - 4 - offset,
            {
                let byte = if offset < text.len() {
                    text[offset]
                } else {
                    32u8
                };
                cells.push(
                    Cell { column: left + 3 + offset, row: top + 3, glyph: Glyph::Byte(byte), color: TEXT_COLOR },
                );
                offset = offset + 1;
            }
            self.rendered_stage = stage;
        }
        let ghost after_stage = cells@;
        let bar_width: usize = QUICKINIT_WIDTH - 16;
        let percent = self.percent;
        let old_percent = self.rendered_percent;
        let filled: usize = bar_width * (percent as usize) / 100;
        let old_filled: usize = bar_width * (old_percent as usize) / 100;
        if first_draw || !self.rendered_progress {
            cells.push(
                Cell { column: left + 3, row: top + 5, glyph: Glyph::Symbol('│'), color: BORDER_COLOR },
            );
            cells.push(
                Cell {
                    column: left + 4 + bar_width,
                    row: top + 5,
                    glyph: Glyph::Symbol('│'),
                    color: BORDER_COLOR,
                },
            );
        }
        let ghost after_ends = cells@;
        let mut index: usize = 0;
        while index < bar_width
            invariant
                index <= bar_width,
                bar_width == QUICKINIT_WIDTH - 16,
                left + QUICKINIT_WIDTH <= usize::MAX,
                top + QUICKINIT_HEIGHT <= usize::MAX,
                filled == bar_fill(percent),
                old_filled == bar_fill(old_percent),
                cells@ == after_ends + bar_cells(left, top, filled as int, old_filled as int, first_draw, index as nat),
                forall|i: int| 0 <= i < cells@.len() ==> in_box(#[trigger] cells@[i], left, top),
            decreases bar_width - index,
        {
            if first_draw || (index < filled) != (index < old_filled) {
                let glyph = if index < filled {
                    '■'
                } else {
                    '□'
                };
                let color = if index < filled {
                    PROGRESS_COLOR
                } else {
                    EMPTY_COLOR
                };
                cells.push(
                    Cell { column: left + 4 + index, row: top + 5, glyph: Glyph::Symbol(glyph), color },
                );
            }
            index = index + 1;
        }
        let ghost after_bar = cells@;
        let new_cells = percent_cells(percent);
        let old_cells = percent_cells(old_percent);
        let mut offset: usize = 0;
        while offset < 4
            invariant
                offset <= 4,
                bar_width == QUICKINIT_WIDTH - 16,
                left + QUICKINIT_WIDTH <= usize::MAX,
                top + QUICKINIT_HEIGHT <= usize::MAX,
                new_cells@ == spec_percent_cells(percent),
                old_cells@ == spec_percent_cells(old_percent),
                cells@ == after_bar + percent_line(left, top, new_cells@, old_cells@, first_draw, offset as nat),
                forall|i: int| 0 <= i < cells@.len() ==> in_box(#[trigger] cells@[i], left, top),
            decreases 4 - offset,
        {
            if first_draw || new_cells[offset] != old_cells[offset] {
                cells.push(
                    Cell {
                        column: left + 8 + bar_width + offset,
                        row: top + 5,
                        glyph: Glyph::Byte(new_cells[offset]),
                        color: PERCENT_COLOR,
                    },
                );
            }
            offset = offset + 1;
        }
        self.rendered_percent = percent;
        self.rendered_progress = true;
        proof {
            lemma_quiet_redraw(left, top, percent, old_percent, first_draw);
        }
        cells
    }
}

/// Nothing of the bar changes when its fill does not.
proof fn lemma_bar_quiet(left: usize, top: usize, filled: int, n: nat)
    ensures
        bar_cells(left, top, filled, filled, false, n) == Seq::<Cell>::empty(),
    decreases n,
{
    if n > 0 {
        lemma_bar_quiet(left, top, filled, (n - 1) as nat);
    }
}

/// Nothing of the percentage changes when it does not.
proof fn lemma_percent_quiet(left: usize, top: usize, now: Seq<u8>, n: nat)
    ensures
        percent_line(left, top, now, now, false, n) == Seq::<Cell>::empty(),
    decreases n,
{
    if n > 0 {
        lemma_percent_quiet(left, top, now, (n - 1) as nat);
    }
}

/// A redraw with the same percentage paints no bar cell or percentage character.
proof fn lemma_quiet_redraw(left: usize, top: usize, percent: u8, old_percent: u8, first: bool)
    ensures
        !first && percent == old_percent ==> bar_cells(left, top, bar_fill(percent), bar_fill(old_percent), first, 38)
            == Seq::<Cell>::empty() && percent_line(
            left,
            top,
            spec_percent_cells(percent),
            spec_percent_cells(old_percent),
            first,
            4,
        ) == Seq::<Cell>::empty(),
{
    if !first && percent == old_percent {
        lemma_bar_quiet(left, top, bar_fill(percent), 38);
        lemma_percent_quiet(left, top, spec_percent_cells(percent), 4);
    }
}


} // verus!
