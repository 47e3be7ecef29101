//! The screen buffer of one session: a grid of cells and a cursor.
//!
//! Rows grow to the right when a cell is written past their end and the
//! buffer grows downwards when the cursor leaves the last row. Nothing is
//! ever truncated and no operation fails.

use vstd::prelude::*;
use crate::ansitypes::LineClearMode;
use crate::event::{Action, Column, Line};
use crate::surface::Coord;

verus! {

/// A palette colour, an extended (red, green, blue) colour, or the
/// terminal's default.
#[derive(Clone, Copy, Debug, PartialEq, Eq, Structural)]
pub enum Color {
    Black,
    Red,
    Green,
    Yellow,
    Blue,
    Magenta,
    Cyan,
    White,
    Extended(usize, usize, usize),
    Default,
}

/// One format attribute of a cell.
#[derive(Clone, Copy, Debug, PartialEq, Eq, Structural)]
pub enum Formatting {
    Default,
    Bright,
    Underline,
    NoUnderline,
    Negative,
    Positive,
    ForegroundColor(Color),
    BrightForegroundColor(Color),
    BackgroundColor(Color),
    BrightBackgroundColor(Color),
}

/// One entry of a cell: nothing, the displayed character, or an attribute.
#[derive(Clone, Copy, Debug, PartialEq, Eq, Structural)]
pub enum CellContents {
    Empty,
    Character(char),
    Format(Formatting),
}

/// A relative cursor move by one position, or an absolute position given as
/// (column, row).
#[derive(Clone, Copy, Debug, PartialEq, Eq, Structural)]
pub enum CursorDirection {
    Forward,
    Backward,
    Up,
    Down,
    Position(usize, usize),
}

/// How many entries of `s` are displayable characters.
pub open spec fn character_count(s: Seq<CellContents>) -> nat
    decreases s.len(),
{
    if s.len() == 0 {
        0
    } else {
        character_count(s.drop_last()) + if s.last() is Character { 1nat } else { 0nat }
    }
}

/// The contents of a cell that shows nothing.
pub open spec fn blank() -> Seq<CellContents> {
    seq![CellContents::Empty]
}

/// `n` blank cells in a row.
pub open spec fn blanks(n: nat) -> Seq<Seq<CellContents>> {
    Seq::new(n, |i: int| blank())
}

/// One screen position: at most one displayed character, and the format
/// attributes that apply to it.
#[derive(Debug, PartialEq, Eq)]
pub struct Cell {
    c: Vec<CellContents>,
}

impl View for Cell {
    type V = Seq<CellContents>;

    closed spec fn view(&self) -> Seq<CellContents> {
        self.c@
    }
}

impl Default for Cell {
    /// The blank cell.
    fn default() -> (cell: Cell)
        ensures
            cell@ == blank(),
    {
        let mut c: Vec<CellContents> = Vec::new();
        c.push(CellContents::Empty);
        proof {
            assert(c@ =~= blank());
            lemma_character_count_push(Seq::empty(), CellContents::Empty);
            assert(Seq::<CellContents>::empty().push(CellContents::Empty) =~= c@);
        }
        Cell { c }
    }
}

impl Clone for Cell {
    /// A cell with the same entries.
    fn clone(&self) -> (cell: Cell)
        ensures
            cell@ == self@,
    {
        proof {
            use_type_invariant(self);
        }
        let mut c: Vec<CellContents> = Vec::new();
        let mut i: usize = 0;
        while i < self.c.len()
            invariant
                i <= self.c@.len(),
                c@ == self.c@.take(i as int),
            decreases self.c@.len() - i,
        {
            c.push(self.c[i]);
            assert(c@ =~= self.c@.take(i + 1));
            i += 1;
        }
        assert(c@ =~= self.c@);
        Cell { c }
    }
}

/// Appending an entry adds one to the count exactly when it is a character.
pub proof fn lemma_character_count_push(s: Seq<CellContents>, e: CellContents)
    ensures
        character_count(s.push(e)) == character_count(s) + if e is Character { 1nat } else { 0nat },
{
    assert(s.push(e).drop_last() =~= s);
}

impl Cell {
    #[verifier::type_invariant]
    spec fn single_character(self) -> bool {
        character_count(self.c@) <= 1
    }

    /// A cell that shows `ch` with no attribute.
    pub fn character(ch: char) -> (cell: Cell)
        ensures
            cell@ == seq![CellContents::Character(ch)],
    {
        let mut c: Vec<CellContents> = Vec::new();
        c.push(CellContents::Character(ch));
        proof {
            lemma_character_count_push(Seq::empty(), CellContents::Character(ch));
            assert(Seq::<CellContents>::empty().push(CellContents::Character(ch)) =~= c@);
            assert(c@ =~= seq![CellContents::Character(ch)]);
        }
        Cell { c }
    }

    /// The same cell with the attribute `f` added after its other entries.
    pub fn with_format(self, f: Formatting) -> (cell: Cell)
        ensures
            cell@ == self@.push(CellContents::Format(f)),
    {
        proof {
            use_type_invariant(&self);
            lemma_character_count_push(self.c@, CellContents::Format(f));
        }
        let mut c = self.c;
        c.push(CellContents::Format(f));
        Cell { c }
    }

    /// The entries of the cell, in order.
    pub fn contents(&self) -> (entries: &Vec<CellContents>)
        ensures
            entries@ == self@,
            character_count(self@) <= 1,
    {
        proof {
            use_type_invariant(self);
        }
        &self.c
    }

    /// The character the cell shows, if it shows one.
    pub fn glyph(&self) -> (g: Option<char>)
        ensures
            match g {
                Some(ch) => self@.contains(CellContents::Character(ch)),
                None => forall|i: int| 0 <= i < self@.len() ==> !(#[trigger] self@[i] is Character),
            },
    {
        let mut i: usize = 0;
        while i < self.c.len()
            invariant
                i <= self.c@.len(),
                forall|j: int| 0 <= j < i ==> !(#[trigger] self.c@[j] is Character),
            decreases self.c@.len() - i,
        {
            match self.c[i] {
                CellContents::Character(ch) => {
                    assert(self.c@[i as int] == CellContents::Character(ch));
                    return Some(ch);
                },
                _ => {},
            }
            i += 1;
        }
        None
    }
}

/// The cells of a row after `c` is written at column `cursor`: the cell
/// there is replaced, or the row is padded with blank cells up to that
/// column and `c` is appended.
pub open spec fn written(cells: Seq<Seq<CellContents>>, c: Seq<CellContents>, cursor: int) -> Seq<
    Seq<CellContents>,
> {
    if cursor < cells.len() {
        cells.update(cursor, c)
    } else {
        cells + blanks((cursor - cells.len()) as nat) + seq![c]
    }
}

/// One line of the screen: its cells from left to right, and the width it
/// was made with. A row is never shorter than its width.
#[derive(Debug, PartialEq, Eq)]
pub struct Row {
    inner: Vec<Cell>,
    width: usize,
}

impl Clone for Row {
    /// A row with the same cells and width.
    fn clone(&self) -> (row: Row)
        ensures
            row.cells() == self.cells(),
            row.spec_width() == self.spec_width(),
    {
        let mut inner: Vec<Cell> = Vec::new();
        let mut i: usize = 0;
        while i < self.inner.len()
            invariant
                i <= self.inner@.len(),
                inner@.len() == i,
                forall|j: int| 0 <= j < i ==> (#[trigger] inner@[j])@ == self.inner@[j]@,
            decreases self.inner@.len() - i,
        {
            inner.push(self.inner[i].clone());
            i += 1;
        }
        let row = Row { inner, width: self.width };
        assert(row.cells() =~= self.cells());
        row
    }
}

impl Row {
    /// The contents of each cell, left to right.
    pub closed spec fn cells(&self) -> Seq<Seq<CellContents>> {
        Seq::new(self.inner@.len(), |i: int| self.inner@[i]@)
    }

    /// The width the row was made with.
    pub closed spec fn spec_width(&self) -> nat {
        self.width as nat
    }

    /// A row holds at least as many cells as its width.
    pub open spec fn wf(&self) -> bool {
        self.cells().len() >= self.spec_width()
    }

    /// `n` more blank cells at the end of `cells`.
    fn pad(cells: &mut Vec<Cell>, n: usize)
        ensures
            final(cells)@.len() == old(cells)@.len() + n,
            forall|i: int| 0 <= i < old(cells)@.len() ==> final(cells)@[i] == old(cells)@[i],
            forall|i: int| old(cells)@.len() <= i < final(cells)@.len() ==> (#[trigger] final(cells)@[i])@ == blank(),
    {
        let mut k: usize = 0;
        while k < n
            invariant
                k <= n,
                cells@.len() == old(cells)@.len() + k,
                forall|i: int| 0 <= i < old(cells)@.len() ==> cells@[i] == old(cells)@[i],
                forall|i: int| old(cells)@.len() <= i < cells@.len() ==> (#[trigger] cells@[i])@ == blank(),
            decreases n - k,
        {
            cells.push(Cell::default());
            k += 1;
        }
    }

    /// A row of `dimensions.x` blank cells.
    pub fn new(dimensions: Coord) -> (row: Row)
        ensures
            row.cells() == blanks(dimensions.x as nat),
            row.spec_width() == dimensions.x,
            row.wf(),
    {
        let mut inner: Vec<Cell> = Vec::new();
        Row::pad(&mut inner, dimensions.x);
        let row = Row { inner, width: dimensions.x };
        assert(row.cells() =~= blanks(dimensions.x as nat));
        row
    }

    /// Resets the row to blank cells at its width. The cell argument is the
    /// fill a caller would like; the row is always filled with blank cells.
    pub fn clear(&mut self, c: Cell)
        ensures
            final(self).cells() == blanks(old(self).spec_width()),
            final(self).spec_width() == old(self).spec_width(),
            final(self).wf(),
    {
        let mut inner: Vec<Cell> = Vec::new();
        Row::pad(&mut inner, self.width);
        self.inner = inner;
        assert(self.cells() =~= blanks(self.width as nat));
    }

    /// Writes `c` at column `cursor`, growing the row when the column lies
    /// past its end. No other cell changes and the row never shrinks.
    pub fn write(&mut self, c: Cell, cursor: usize)
        ensures
            final(self).cells() == written(old(self).cells(), c@, cursor as int),
            final(self).spec_width() == old(self).spec_width(),
            old(self).wf() ==> final(self).wf(),
    {
        if cursor < self.inner.len() {
            self.inner[cursor] = c;
            assert(self.cells() =~= written(old(self).cells(), c@, cursor as int));
        } else {
            let n = cursor - self.inner.len();
            Row::pad(&mut self.inner, n);
            self.inner.push(c);
            assert(self.cells() =~= written(old(self).cells(), c@, cursor as int));
        }
    }

    /// The number of cells the row holds now.
    pub fn len(&self) -> (n: usize)
        ensures
            n == self.cells().len(),
    {
        self.inner.len()
    }

    /// The width the row was made with.
    pub fn width(&self) -> (w: usize)
        ensures
            w == self.spec_width(),
    {
        self.width
    }

    /// The cell at column `i`, if the row reaches that far.
    pub fn get(&self, i: usize) -> (cell: Option<&Cell>)
        ensures
            match cell {
                Some(c) => i < self.cells().len() && c@ == self.cells()[i as int],
                None => i >= self.cells().len(),
            },
    {
        if i < self.inner.len() {
            Some(&self.inner[i])
        } else {
            None
        }
    }

    /// Gives the row a new width, padding it with blank cells where it is
    /// shorter. No cell is removed or changed.
    pub fn resize(&mut self, width: usize)
        ensures
            final(self).cells() == old(self).cells() + blanks(
                if width > old(self).cells().len() {
                    (width - old(self).cells().len()) as nat
                } else {
                    0
                },
            ),
            final(self).spec_width() == width,
            final(self).wf(),
    {
        if width > self.inner.len() {
            let n = width - self.inner.len();
            Row::pad(&mut self.inner, n);
        }
        self.width = width;
        assert(self.cells() =~= old(self).cells() + blanks(
            if width > old(self).cells().len() {
                (width - old(self).cells().len()) as nat
            } else {
                0
            },
        ));
    }
}

/// What a screen buffer holds: the contents of every cell, rows top to
/// bottom and cells left to right, the cursor, and the dimensions the
/// screen was made with or last resized to.
pub struct Screen {
    pub grid: Seq<Seq<Seq<CellContents>>>,
    pub cursor: Coord,
    pub dimensions: Coord,
}

impl Screen {
    /// The cursor is on a row or directly below the last one, and no row
    /// is narrower than the screen.
    pub open spec fn wf(self) -> bool {
        &&& self.cursor.y <= self.grid.len()
        &&& forall|i: int| 0 <= i < self.grid.len() ==> (#[trigger] self.grid[i]).len() >= self.dimensions.x
    }

    /// The screen fits the machine: the number of rows and the number of
    /// cells of every row can be counted in a `usize`.
    pub open spec fn bounded(self) -> bool {
        &&& self.grid.len() <= usize::MAX
        &&& forall|i: int| 0 <= i < self.grid.len() ==> (#[trigger] self.grid[i]).len() <= usize::MAX
    }

    /// A blank screen of `dimensions.y` rows, each `dimensions.x` cells
    /// wide, with the cursor in the top left corner.
    pub open spec fn blank(dimensions: Coord) -> Screen {
        Screen {
            grid: Seq::new(dimensions.y as nat, |i: int| blanks(dimensions.x as nat)),
            cursor: Coord { x: 0, y: 0 },
            dimensions,
        }
    }

    /// The screen after a cell is written at the cursor: a blank row is
    /// appended first when the cursor stands below the last row, the cell
    /// is written into the cursor's row, which grows when the cursor is
    /// past its end, and the cursor advances by one column without ever
    /// wrapping.
    pub open spec fn with_cell(self, c: Seq<CellContents>) -> Screen {
        let g = if self.cursor.y < self.grid.len() {
            self.grid
        } else {
            self.grid.push(blanks(self.dimensions.x as nat))
        };
        Screen {
            grid: g.update(self.cursor.y as int, written(g[self.cursor.y as int], c, self.cursor.x as int)),
            cursor: Coord { x: (self.cursor.x + 1) as usize, y: self.cursor.y },
            dimensions: self.dimensions,
        }
    }

    /// The screen after a newline: the cursor stands at the start of the
    /// next row, and a blank row is appended when that leaves the rows
    /// there were.
    pub open spec fn with_newline(self) -> Screen {
        Screen {
            grid: if self.cursor.y + 1 >= self.grid.len() {
                self.grid.push(blanks(self.dimensions.x as nat))
            } else {
                self.grid
            },
            cursor: Coord { x: 0, y: (self.cursor.y + 1) as usize },
            dimensions: self.dimensions,
        }
    }

    /// The screen after the cursor moves once. Relative moves stop at the
    /// edge they run into; an absolute position is clamped on each axis by
    /// itself. Columns stay below the width and rows may reach the height,
    /// the row below the last one. No cell changes.
    pub open spec fn with_cursor(self, direction: CursorDirection) -> Screen {
        let width = self.dimensions.x;
        let height = self.grid.len();
        let cursor = self.cursor;
        Screen {
            grid: self.grid,
            cursor: match direction {
                CursorDirection::Forward => Coord {
                    x: if cursor.x + 1 < width { (cursor.x + 1) as usize } else { cursor.x },
                    y: cursor.y,
                },
                CursorDirection::Backward => Coord {
                    x: if cursor.x > 0 { (cursor.x - 1) as usize } else { 0 },
                    y: cursor.y,
                },
                CursorDirection::Up => Coord {
                    x: cursor.x,
                    y: if cursor.y > 0 { (cursor.y - 1) as usize } else { 0 },
                },
                CursorDirection::Down => Coord {
                    x: cursor.x,
                    y: if cursor.y < height { (cursor.y + 1) as usize } else { cursor.y },
                },
                CursorDirection::Position(x, y) => Coord {
                    x: if width == 0 { 0 } else if x < width { x } else { (width - 1) as usize },
                    y: if y < height { y } else { height as usize },
                },
            },
            dimensions: self.dimensions,
        }
    }

    /// The screen after the cursor moves `count` times in `direction`.
    pub open spec fn with_cursor_times(self, direction: CursorDirection, count: nat) -> Screen
        decreases count,
    {
        if count == 0 {
            self
        } else {
            self.with_cursor_times(direction, (count - 1) as nat).with_cursor(direction)
        }
    }

    /// The screen after the cells of the cursor's row are reset to blank.
    /// Nothing changes when the cursor is below the last row.
    pub open spec fn cleared(self) -> Screen {
        Screen {
            grid: if self.cursor.y < self.grid.len() {
                self.grid.update(self.cursor.y as int, blanks(self.dimensions.x as nat))
            } else {
                self.grid
            },
            cursor: self.cursor,
            dimensions: self.dimensions,
        }
    }

    /// The screen after a resize: every row is padded with blank cells to
    /// the new width, blank rows are appended up to the new height, and
    /// nothing is removed. The cursor stays where it is.
    pub open spec fn resized(self, dimensions: Coord) -> Screen {
        Screen {
            grid: Seq::new(
                if dimensions.y > self.grid.len() { dimensions.y as nat } else { self.grid.len() },
                |i: int|
                    if i < self.grid.len() {
                        self.grid[i] + blanks(
                            if dimensions.x > self.grid[i].len() {
                                (dimensions.x - self.grid[i].len()) as nat
                            } else {
                                0
                            },
                        )
                    } else {
                        blanks(dimensions.x as nat)
                    },
            ),
            cursor: self.cursor,
            dimensions,
        }
    }

    /// The screen after an event from the session's output.
    ///
    /// A character is written at the cursor; a line feed or a next-line
    /// is a newline; a carriage return moves the cursor to the start of
    /// its row and a backspace moves it back by one; a cursor move moves
    /// it by its count and a goto moves it to its row and column; clearing
    /// the whole line resets the cursor's row. Every other event leaves
    /// the screen as it is.
    pub open spec fn applied(self, action: Action) -> Screen {
        match action {
            Action::PtyOutput(_, c) => self.with_cell(seq![CellContents::Character(c)]),
            Action::PtyLineFeed(_) | Action::PtyNewline(_) => self.with_newline(),
            Action::PtyCarriageReturn(_) => Screen {
                grid: self.grid,
                cursor: Coord { x: 0, y: self.cursor.y },
                dimensions: self.dimensions,
            },
            Action::PtyBackspace(_) => self.with_cursor(CursorDirection::Backward),
            Action::PtyCursorMoveForward(_, Column(n)) => self.with_cursor_times(CursorDirection::Forward, n as nat),
            Action::PtyCursorMoveBackward(_, Column(n)) => self.with_cursor_times(
                CursorDirection::Backward,
                n as nat,
            ),
            Action::PtyCursorMoveUp(_, Line(n)) => self.with_cursor_times(CursorDirection::Up, n as nat),
            Action::PtyCursorMoveDown(_, Line(n)) => self.with_cursor_times(CursorDirection::Down, n as nat),
            Action::PtyCursorGoto(_, Line(row), Column(column)) => self.with_cursor(
                CursorDirection::Position(column, row),
            ),
            Action::PtyClearLine(_, LineClearMode::All) => self.cleared(),
            _ => self,
        }
    }

    /// The screen after a list of events, in order.
    pub open spec fn applied_all(self, actions: Seq<Action>) -> Screen
        decreases actions.len(),
    {
        if actions.len() == 0 {
            self
        } else {
            self.applied_all(actions.drop_last()).applied(actions.last())
        }
    }
}

/// Where `count` moves in a row take the cursor, computed at once.
pub open spec fn moved_times(cursor: Coord, direction: CursorDirection, count: nat, width: nat, height: nat) -> Coord {
    match direction {
        CursorDirection::Forward => Coord {
            x: if cursor.x < width && cursor.x + count >= width {
                (width - 1) as usize
            } else if cursor.x < width {
                (cursor.x + count) as usize
            } else {
                cursor.x
            },
            y: cursor.y,
        },
        CursorDirection::Backward => Coord {
            x: if cursor.x >= count { (cursor.x - count) as usize } else { 0 },
            y: cursor.y,
        },
        CursorDirection::Up => Coord {
            x: cursor.x,
            y: if cursor.y >= count { (cursor.y - count) as usize } else { 0 },
        },
        CursorDirection::Down => Coord {
            x: cursor.x,
            y: if cursor.y < height && cursor.y + count >= height {
                height as usize
            } else if cursor.y < height {
                (cursor.y + count) as usize
            } else {
                cursor.y
            },
        },
        CursorDirection::Position(x, y) => if count == 0 {
            cursor
        } else {
            Coord {
                x: if width == 0 { 0 } else if x < width { x } else { (width - 1) as usize },
                y: if y < height { y } else { height as usize },
            }
        },
    }
}

/// Moving the cursor `count` times changes nothing but the cursor, and
/// takes it where `moved_times` says.
pub proof fn lemma_with_cursor_times(screen: Screen, direction: CursorDirection, count: nat)
    requires
        screen.grid.len() <= usize::MAX,
    ensures
        screen.with_cursor_times(direction, count) == (Screen {
            grid: screen.grid,
            cursor: moved_times(
                screen.cursor,
                direction,
                count,
                screen.dimensions.x as nat,
                screen.grid.len(),
            ),
            dimensions: screen.dimensions,
        }),
    decreases count,
{
    if count > 0 {
        lemma_with_cursor_times(screen, direction, (count - 1) as nat);
    }
}

/// A write is local: on a well-formed screen, writing a cell changes the
/// cell at the cursor and no other cell that was there. Every other row
/// stays as it is, the cursor's row keeps every other cell it had, no row
/// and no cell is lost, and the screen stays well formed.
pub proof fn lemma_write_is_local(screen: Screen, c: Seq<CellContents>)
    requires
        screen.wf(),
    ensures
        ({
            let wrote = screen.with_cell(c);
            let x = screen.cursor.x as int;
            let y = screen.cursor.y as int;
            &&& wrote.wf()
            &&& wrote.grid.len() >= screen.grid.len()
            &&& wrote.grid.len() > y
            &&& wrote.grid[y].len() > x
            &&& wrote.grid[y][x] == c
            &&& forall|i: int| 0 <= i < screen.grid.len() && i != y ==> #[trigger] wrote.grid[i] == screen.grid[i]
            &&& y < screen.grid.len() ==> wrote.grid[y].len() >= screen.grid[y].len() && forall|j: int|
                0 <= j < screen.grid[y].len() && j != x ==> #[trigger] wrote.grid[y][j] == screen.grid[y][j]
        }),
{
}

/// A move keeps the cursor on the screen: the row never passes the row
/// below the last one, and a column that was inside the width stays
/// inside it. An absolute position always lands inside the width of a
/// screen that has one.
pub proof fn lemma_move_stays_on_screen(screen: Screen, direction: CursorDirection)
    requires
        screen.wf(),
    ensures
        ({
            let moved = screen.with_cursor(direction);
            &&& moved.wf()
            &&& moved.grid == screen.grid
            &&& moved.dimensions == screen.dimensions
            &&& moved.cursor.y <= screen.grid.len()
            &&& screen.cursor.x < screen.dimensions.x ==> moved.cursor.x < screen.dimensions.x
            &&& direction is Position && screen.dimensions.x > 0 ==> moved.cursor.x < screen.dimensions.x
        }),
{
}

/// However often the cursor moves, it stays on the screen and no cell
/// changes.
pub proof fn lemma_moves_stay_on_screen(screen: Screen, direction: CursorDirection, count: nat)
    requires
        screen.wf(),
    ensures
        ({
            let moved = screen.with_cursor_times(direction, count);
            &&& moved.wf()
            &&& moved.grid == screen.grid
            &&& moved.dimensions == screen.dimensions
            &&& screen.cursor.x < screen.dimensions.x ==> moved.cursor.x < screen.dimensions.x
        }),
    decreases count,
{
    if count > 0 {
        lemma_moves_stay_on_screen(screen, direction, (count - 1) as nat);
        lemma_move_stays_on_screen(screen.with_cursor_times(direction, (count - 1) as nat), direction);
    }
}

/// Whatever event is applied, a well-formed screen stays well formed.
pub proof fn lemma_applied_wf(screen: Screen, action: Action)
    requires
        screen.wf(),
    ensures
        screen.applied(action).wf(),
{
    match action {
        Action::PtyCursorMoveForward(_, Column(n)) => {
            lemma_moves_stay_on_screen(screen, CursorDirection::Forward, n as nat);
        },
        Action::PtyCursorMoveBackward(_, Column(n)) => {
            lemma_moves_stay_on_screen(screen, CursorDirection::Backward, n as nat);
        },
        Action::PtyCursorMoveUp(_, Line(n)) => {
            lemma_moves_stay_on_screen(screen, CursorDirection::Up, n as nat);
        },
        Action::PtyCursorMoveDown(_, Line(n)) => {
            lemma_moves_stay_on_screen(screen, CursorDirection::Down, n as nat);
        },
        _ => {},
    }
}

/// Writing at the last column and once more never fails: the row grows by
/// one cell and the cursor stands two columns further. A newline after
/// that puts the cursor at the start of the next row and appends a blank
/// row exactly when there was no row there.
pub proof fn lemma_write_past_width(screen: Screen, first: Seq<CellContents>, second: Seq<CellContents>)
    requires
        screen.wf(),
        screen.dimensions.x > 0,
        screen.cursor.x == screen.dimensions.x - 1,
        screen.cursor.y < screen.grid.len(),
        screen.grid[screen.cursor.y as int].len() == screen.dimensions.x,
        screen.dimensions.x < usize::MAX,
        screen.cursor.y < usize::MAX,
    ensures
        ({
            let y = screen.cursor.y as int;
            let width = screen.dimensions.x as int;
            let wrote = screen.with_cell(first).with_cell(second);
            let next = wrote.with_newline();
            &&& wrote.wf()
            &&& wrote.grid.len() == screen.grid.len()
            &&& wrote.grid[y].len() == width + 1
            &&& wrote.grid[y][width - 1] == first
            &&& wrote.grid[y][width] == second
            &&& forall|i: int| 0 <= i < screen.grid.len() && i != y ==> wrote.grid[i] == screen.grid[i]
            &&& wrote.cursor == (Coord { x: (width + 1) as usize, y: screen.cursor.y })
            &&& next.wf()
            &&& next.cursor == (Coord { x: 0, y: (y + 1) as usize })
            &&& next.grid == if y + 1 == screen.grid.len() {
                wrote.grid.push(blanks(width as nat))
            } else {
                wrote.grid
            }
        }),
{
    let y = screen.cursor.y as int;
    let one = screen.with_cell(first);
    let wrote = one.with_cell(second);
    assert(one.grid[y].len() == screen.dimensions.x);
    assert(wrote.grid[y] =~= one.grid[y] + blanks(0) + seq![second]);
}

/// The screen of one session: rows of cells, the cursor, and the dimensions
/// the screen was made with or last resized to.
#[derive(Debug, PartialEq, Eq)]
pub struct Buffer {
    buffer: Vec<Row>,
    cursor: Coord,
    dimensions: Coord,
}

impl View for Buffer {
    type V = Screen;

    closed spec fn view(&self) -> Screen {
        Screen {
            grid: Seq::new(self.buffer@.len(), |i: int| self.buffer@[i].cells()),
            cursor: self.cursor,
            dimensions: self.dimensions,
        }
    }
}

impl Clone for Buffer {
    /// A buffer that holds the same screen.
    fn clone(&self) -> (copy: Buffer)
        ensures
            copy@ == self@,
            self.wf() ==> copy.wf(),
    {
        let mut buffer: Vec<Row> = Vec::new();
        let mut i: usize = 0;
        while i < self.buffer.len()
            invariant
                i <= self.buffer@.len(),
                buffer@.len() == i,
                forall|j: int| 0 <= j < i ==> (#[trigger] buffer@[j]).cells() == self.buffer@[j].cells(),
                forall|j: int| 0 <= j < i ==> (#[trigger] buffer@[j]).spec_width() == self.buffer@[j].spec_width(),
            decreases self.buffer@.len() - i,
        {
            buffer.push(self.buffer[i].clone());
            i += 1;
        }
        let copy = Buffer { buffer, cursor: self.cursor, dimensions: self.dimensions };
        assert(copy@.grid =~= self@.grid);
        copy
    }
}

impl Buffer {
    /// Every row was made with the buffer's width.
    pub closed spec fn rows_match(&self) -> bool {
        forall|i: int| 0 <= i < self.buffer@.len() ==> (#[trigger] self.buffer@[i]).spec_width() == self.dimensions.x
    }

    /// The screen is well formed and fits the machine, and every row was
    /// made with its width.
    pub open spec fn wf(&self) -> bool {
        &&& self@.wf()
        &&& self@.bounded()
        &&& self.rows_match()
    }

    /// A blank screen of `dimensions.y` rows, each `dimensions.x` cells
    /// wide, with the cursor in the top left corner.
    pub fn new(dimensions: Coord) -> (b: Buffer)
        ensures
            b@ == Screen::blank(dimensions),
            b.wf(),
    {
        let mut buffer: Vec<Row> = Vec::new();
        let mut i: usize = 0;
        while i < dimensions.y
            invariant
                i <= dimensions.y,
                buffer@.len() == i,
                forall|j: int| 0 <= j < i ==> (#[trigger] buffer@[j]).cells() == blanks(dimensions.x as nat),
                forall|j: int| 0 <= j < i ==> (#[trigger] buffer@[j]).spec_width() == dimensions.x,
            decreases dimensions.y - i,
        {
            buffer.push(Row::new(dimensions));
            i += 1;
        }
        let b = Buffer { buffer, cursor: Coord { x: 0, y: 0 }, dimensions };
        assert(b@.grid =~= Screen::blank(dimensions).grid);
        b
    }

    /// Writes `c` at the cursor and advances the cursor by one column. The
    /// row grows when the cursor is past its end, and a blank row is
    /// appended first when the cursor is below the last row. The cursor
    /// never wraps, neither to the next row nor to column zero.
    pub fn push_cell(&mut self, c: Cell)
        requires
            old(self).wf(),
        ensures
            final(self).wf(),
            final(self)@ == old(self)@.with_cell(c@),
            final(self)@.cursor.x == old(self)@.cursor.x + 1,
            final(self)@.cursor.y == old(self)@.cursor.y,
    {
        if self.cursor.y >= self.buffer.len() {
            self.buffer.push(Row::new(self.dimensions));
        }
        let rows = self.buffer.len();
        let ghost mid = self@.grid;
        assert(mid =~= if old(self)@.cursor.y < old(self)@.grid.len() {
            old(self)@.grid
        } else {
            old(self)@.grid.push(blanks(old(self)@.dimensions.x as nat))
        });
        let y = self.cursor.y;
        let x = self.cursor.x;
        self.buffer[y].write(c, x);
        let cells = self.buffer[y].len();
        assert(cells > x);
        self.cursor.x = x + 1;
        assert(self@.grid =~= mid.update(y as int, written(mid[y as int], c@, x as int)));
    }

    /// Moves the cursor to the start of the next row, wherever it stood. A
    /// blank row is appended when the cursor leaves the rows there were.
    /// The cell argument is the fill a caller would like; new rows are
    /// always blank.
    pub fn push_newline(&mut self, c: Cell)
        requires
            old(self).wf(),
        ensures
            final(self).wf(),
            final(self)@ == old(self)@.with_newline(),
            final(self)@.cursor.x == 0,
            final(self)@.cursor.y == old(self)@.cursor.y + 1,
    {
        let y = self.cursor.y;
        let before = self.buffer.len();
        if before == 0 || y >= before - 1 {
            self.buffer.push(Row::new(self.dimensions));
            let rows = self.buffer.len();
            assert(rows == before + 1);
            assert(self@.grid =~= old(self)@.grid.push(blanks(old(self)@.dimensions.x as nat)));
        } else {
            assert(self@.grid =~= old(self)@.grid);
        }
        self.cursor = Coord { x: 0, y: y + 1 };
    }

    /// Moves the cursor once. No cell changes.
    pub fn set_cursor(&mut self, c: CursorDirection)
        requires
            old(self).wf(),
        ensures
            final(self).wf(),
            final(self)@ == old(self)@.with_cursor(c),
    {
        let width = self.dimensions.x;
        let height = self.buffer.len();
        let cursor = self.cursor;
        let next = match c {
            CursorDirection::Forward => Coord {
                x: if cursor.x < usize::MAX && cursor.x + 1 < width { cursor.x + 1 } else { cursor.x },
                y: cursor.y,
            },
            CursorDirection::Backward => Coord { x: if cursor.x > 0 { cursor.x - 1 } else { 0 }, y: cursor.y },
            CursorDirection::Up => Coord { x: cursor.x, y: if cursor.y > 0 { cursor.y - 1 } else { 0 } },
            CursorDirection::Down => Coord { x: cursor.x, y: if cursor.y < height { cursor.y + 1 } else { cursor.y } },
            CursorDirection::Position(x, y) => Coord {
                x: if width == 0 { 0 } else if x < width { x } else { width - 1 },
                y: if y < height { y } else { height },
            },
        };
        self.cursor = next;
        assert(self@.grid =~= old(self)@.grid);
    }

    /// Moves the cursor `count` times in one direction. No cell changes.
    pub fn move_cursor(&mut self, direction: CursorDirection, count: usize)
        requires
            old(self).wf(),
        ensures
            final(self).wf(),
            final(self)@ == old(self)@.with_cursor_times(direction, count as nat),
    {
        let width = self.dimensions.x;
        let height = self.buffer.len();
        let cursor = self.cursor;
        proof {
            lemma_with_cursor_times(self@, direction, count as nat);
        }
        let next = match direction {
            CursorDirection::Forward => Coord {
                x: if cursor.x < width && count >= width - cursor.x {
                    width - 1
                } else if cursor.x < width {
                    cursor.x + count
                } else {
                    cursor.x
                },
                y: cursor.y,
            },
            CursorDirection::Backward => Coord { x: if cursor.x >= count { cursor.x - count } else { 0 }, y: cursor.y },
            CursorDirection::Up => Coord { x: cursor.x, y: if cursor.y >= count { cursor.y - count } else { 0 } },
            CursorDirection::Down => Coord {
                x: cursor.x,
                y: if cursor.y < height && count >= height - cursor.y {
                    height
                } else if cursor.y < height {
                    cursor.y + count
                } else {
                    cursor.y
                },
            },
            CursorDirection::Position(x, y) => if count == 0 {
                cursor
            } else {
                Coord {
                    x: if width == 0 { 0 } else if x < width { x } else { width - 1 },
                    y: if y < height { y } else { height },
                }
            },
        };
        self.cursor = next;
        assert(self@.grid =~= old(self)@.grid);
    }

    /// Resets the cells of the cursor's row to blank. Nothing changes when
    /// the cursor is below the last row.
    pub fn clear(&mut self)
        requires
            old(self).wf(),
        ensures
            final(self).wf(),
            final(self)@ == old(self)@.cleared(),
    {
        let y = self.cursor.y;
        if y < self.buffer.len() {
            self.buffer[y].clear(Cell::default());
            assert(self@.grid =~= old(self)@.grid.update(y as int, blanks(old(self)@.dimensions.x as nat)));
        } else {
            assert(self@.grid =~= old(self)@.grid);
        }
    }

    /// Takes on new dimensions: rows are padded to the new width, rows are
    /// appended up to the new height, and nothing is removed. The cursor
    /// stays where it is.
    pub fn resize(&mut self, dimensions: Coord)
        requires
            old(self).wf(),
        ensures
            final(self).wf(),
            final(self)@ == old(self)@.resized(dimensions),
    {
        let n = self.buffer.len();
        let ghost goal = old(self)@.resized(dimensions).grid;
        let mut i: usize = 0;
        while i < n
            invariant
                i <= n,
                n == old(self)@.grid.len(),
                self.buffer@.len() == n,
                self.cursor == old(self).cursor,
                goal == old(self)@.resized(dimensions).grid,
                forall|j: int| 0 <= j < i ==> (#[trigger] self.buffer@[j]).cells() == goal[j],
                forall|j: int| 0 <= j < i ==> (#[trigger] self.buffer@[j]).spec_width() == dimensions.x,
                forall|j: int| 0 <= j < i ==> (#[trigger] self.buffer@[j]).wf(),
                forall|j: int| 0 <= j < i ==> (#[trigger] self.buffer@[j]).cells().len() <= usize::MAX,
                forall|j: int| i <= j < n ==> self.buffer@[j] == old(self).buffer@[j],
            decreases n - i,
        {
            self.buffer[i].resize(dimensions.x);
            let cells = self.buffer[i].len();
            i += 1;
        }
        while i < dimensions.y
            invariant
                n <= i,
                n == old(self)@.grid.len(),
                i <= dimensions.y || i == n,
                self.buffer@.len() == i,
                self.cursor == old(self).cursor,
                goal == old(self)@.resized(dimensions).grid,
                forall|j: int| 0 <= j < i ==> (#[trigger] self.buffer@[j]).cells() == goal[j],
                forall|j: int| 0 <= j < i ==> (#[trigger] self.buffer@[j]).spec_width() == dimensions.x,
                forall|j: int| 0 <= j < i ==> (#[trigger] self.buffer@[j]).wf(),
                forall|j: int| 0 <= j < i ==> (#[trigger] self.buffer@[j]).cells().len() <= usize::MAX,
            decreases dimensions.y - i,
        {
            self.buffer.push(Row::new(dimensions));
            i += 1;
        }
        self.dimensions = dimensions;
        assert(self@.grid =~= goal);
    }

    /// Applies an event from the session's output.
    pub fn apply(&mut self, action: Action)
        requires
            old(self).wf(),
        ensures
            final(self).wf(),
            final(self)@ == old(self)@.applied(action),
    {
        match action {
            Action::PtyOutput(_, c) => {
                self.push_cell(Cell::character(c));
            },
            Action::PtyLineFeed(_) | Action::PtyNewline(_) => {
                self.push_newline(Cell::default());
            },
            Action::PtyCarriageReturn(_) => {
                self.cursor.x = 0;
                assert(self@.grid =~= old(self)@.grid);
            },
            Action::PtyBackspace(_) => {
                self.set_cursor(CursorDirection::Backward);
            },
            Action::PtyCursorMoveForward(_, Column(n)) => {
                self.move_cursor(CursorDirection::Forward, n);
            },
            Action::PtyCursorMoveBackward(_, Column(n)) => {
                self.move_cursor(CursorDirection::Backward, n);
            },
            Action::PtyCursorMoveUp(_, Line(n)) => {
                self.move_cursor(CursorDirection::Up, n);
            },
            Action::PtyCursorMoveDown(_, Line(n)) => {
                self.move_cursor(CursorDirection::Down, n);
            },
            Action::PtyCursorGoto(_, Line(row), Column(column)) => {
                self.set_cursor(CursorDirection::Position(column, row));
            },
            Action::PtyClearLine(_, LineClearMode::All) => {
                self.clear();
            },
            _ => {},
        }
    }

    /// The cursor.
    pub fn cursor(&self) -> (c: Coord)
        ensures
            c == self@.cursor,
    {
        self.cursor
    }

    /// The dimensions the buffer was made with or last resized to.
    pub fn dimensions(&self) -> (d: Coord)
        ensures
            d == self@.dimensions,
    {
        self.dimensions
    }

    /// The number of rows.
    pub fn height(&self) -> (h: usize)
        ensures
            h == self@.grid.len(),
    {
        self.buffer.len()
    }

    /// Row `i`, if there is one.
    pub fn row(&self, i: usize) -> (row: Option<&Row>)
        ensures
            match row {
                Some(r) => i < self@.grid.len() && r.cells() == self@.grid[i as int],
                None => i >= self@.grid.len(),
            },
    {
        if i < self.buffer.len() {
            Some(&self.buffer[i])
        } else {
            None
        }
    }

    /// The text a terminal would need to redraw the buffer. The buffer keeps
    /// no rendering state, so the text is empty.
    pub fn raw() -> (text: String)
        ensures
            text@ == Seq::<char>::empty(),
    {
        String::new()
    }
}

} // verus!
