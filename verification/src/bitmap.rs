//! Grids of bits and their editor: the data.

pub mod io;
pub mod semantics;

use crate::types::lang::{Dir2D, Nat};
use vstd::prelude::*;

verus! {

/// A grid of bits, held as a vector of vectors.
#[derive(Debug, Hash)]
pub struct Bitmap {
    pub width: Nat,
    pub height: Nat,
    pub major: Major,
    pub bits: Vec<Vec<bool>>,
}

/// Whether the outer vector of a grid runs over rows or over columns.
#[derive(Clone, Copy, Debug, PartialEq, Eq, Structural, Hash)]
pub enum Major {
    /// Rows are indexed first, then columns.
    Row,
    /// Columns are indexed first, then rows.
    Col,
}

/// A command on the grid alone.
#[derive(Clone, Copy, Debug, PartialEq, Eq, Structural, Hash)]
pub enum AutoCommand {
    /// Flip the bit at the given coordinate.
    ToggleBit(Nat, Nat),
    /// Set the bit at the given coordinate.
    SetBit(Nat, Nat, bool),
}

/// The grid and the cursor on it.
#[derive(Debug, Hash)]
pub struct EditorState {
    pub bitmap: Bitmap,
    pub cursor: (Nat, Nat),
}

/// The editor: every command it was given, and its state once set up.
#[derive(Debug, Hash)]
pub struct Editor {
    pub history: Vec<Command>,
    pub state: Option<EditorState>,
}

/// A command that makes a new grid.
#[derive(Clone, Copy, Debug, PartialEq, Eq, Structural, Hash)]
pub enum InitCommand {
    Make8x8,
    Make16x16,
    Make32x32,
}

/// A command that moves the cursor or edits the bit under it.
#[derive(Clone, Copy, Debug, PartialEq, Eq, Structural, Hash)]
pub enum EditCommand {
    /// Move the cursor one place; at an edge it stays.
    MoveRel(Dir2D),
    /// Move the cursor to a coordinate of the grid.
    MoveAbs(Nat, Nat),
    /// Flip the bit under the cursor.
    Toggle,
}

#[derive(Clone, Copy, Debug, PartialEq, Eq, Structural, Hash)]
pub enum Command {
    Init(InitCommand),
    Auto(AutoCommand),
    Edit(EditCommand),
}

/// What a `Bitmap` stands for: its declared size and order, and its lines.
pub struct BitmapView {
    pub width: nat,
    pub height: nat,
    pub major: Major,
    pub lines: Seq<Seq<bool>>,
}

impl BitmapView {
    /// The lines agree with the declared size: `height` rows of `width` bits
    /// in row order, `width` columns of `height` bits in column order.
    pub open spec fn wf(self) -> bool {
        match self.major {
            Major::Row => {
                &&& self.lines.len() == self.height
                &&& forall|i: int| 0 <= i < self.lines.len() ==> (#[trigger] self.lines[i]).len() == self.width
            },
            Major::Col => {
                &&& self.lines.len() == self.width
                &&& forall|i: int| 0 <= i < self.lines.len() ==> (#[trigger] self.lines[i]).len() == self.height
            },
        }
    }

    /// `(x, y)` is a coordinate of the grid.
    pub open spec fn holds(self, x: int, y: int) -> bool {
        0 <= x < self.width && 0 <= y < self.height
    }

    /// The bit at column `x` of row `y`.
    pub open spec fn bit(self, x: int, y: int) -> bool {
        match self.major {
            Major::Row => self.lines[y][x],
            Major::Col => self.lines[x][y],
        }
    }

    /// The grid with the bit at `(x, y)` set to `b`.
    pub open spec fn set(self, x: int, y: int, b: bool) -> BitmapView {
        match self.major {
            Major::Row => BitmapView { lines: self.lines.update(y, self.lines[y].update(x, b)), ..self },
            Major::Col => BitmapView { lines: self.lines.update(x, self.lines[x].update(y, b)), ..self },
        }
    }

    /// The grid with the bit at `(x, y)` flipped.
    pub open spec fn toggle(self, x: int, y: int) -> BitmapView {
        self.set(x, y, !self.bit(x, y))
    }

    /// The grid of `w` by `h` bits, all clear, in row order.
    pub open spec fn blank(w: nat, h: nat) -> BitmapView {
        BitmapView {
            width: w,
            height: h,
            major: Major::Row,
            lines: Seq::new(h, |i: int| Seq::new(w, |j: int| false)),
        }
    }
}

impl View for Bitmap {
    type V = BitmapView;

    open spec fn view(&self) -> BitmapView {
        BitmapView {
            width: self.width as nat,
            height: self.height as nat,
            major: self.major,
            lines: Seq::new(self.bits@.len(), |i: int| self.bits@[i]@),
        }
    }
}

/// What an `EditorState` stands for.
pub struct EditorStateView {
    pub bitmap: BitmapView,
    pub cursor: (nat, nat),
}

impl EditorStateView {
    /// The grid is well formed and the cursor is on it.
    pub open spec fn wf(self) -> bool {
        &&& self.bitmap.wf()
        &&& self.bitmap.holds(self.cursor.0 as int, self.cursor.1 as int)
    }

    /// The state after an edit command, or nothing where the command asks
    /// for a coordinate off the grid.
    pub open spec fn edit(self, cmd: EditCommand) -> Option<EditorStateView> {
        let (x, y) = self.cursor;
        let (w, h) = (self.bitmap.width, self.bitmap.height);
        match cmd {
            EditCommand::MoveRel(dir) => Some(
                EditorStateView {
                    cursor: match dir {
                        Dir2D::Left => (if x == 0 { 0 } else { (x - 1) as nat }, y),
                        Dir2D::Right => (if x + 1 >= w { (w - 1) as nat } else { x + 1 }, y),
                        Dir2D::Up => (x, if y == 0 { 0 } else { (y - 1) as nat }),
                        Dir2D::Down => (x, if y + 1 >= h { (h - 1) as nat } else { y + 1 }),
                    },
                    ..self
                },
            ),
            EditCommand::MoveAbs(ax, ay) => if ax < w && ay < h {
                Some(EditorStateView { cursor: (ax as nat, ay as nat), ..self })
            } else {
                None
            },
            EditCommand::Toggle => Some(
                EditorStateView { bitmap: self.bitmap.toggle(x as int, y as int), ..self },
            ),
        }
    }
}

impl View for EditorState {
    type V = EditorStateView;

    open spec fn view(&self) -> EditorStateView {
        EditorStateView {
            bitmap: self.bitmap@,
            cursor: (self.cursor.0 as nat, self.cursor.1 as nat),
        }
    }
}

impl AutoCommand {
    /// The grid after the command.
    pub open spec fn apply(self, bitmap: BitmapView) -> BitmapView {
        match self {
            AutoCommand::ToggleBit(x, y) => bitmap.toggle(x as int, y as int),
            AutoCommand::SetBit(x, y, b) => bitmap.set(x as int, y as int, b),
        }
    }

    /// The command names a coordinate of the grid.
    pub open spec fn fits(self, bitmap: BitmapView) -> bool {
        match self {
            AutoCommand::ToggleBit(x, y) => bitmap.holds(x as int, y as int),
            AutoCommand::SetBit(x, y, _) => bitmap.holds(x as int, y as int),
        }
    }
}

impl InitCommand {
    /// The side of the square grid that the command makes.
    pub open spec fn side(self) -> nat {
        match self {
            InitCommand::Make8x8 => 8,
            InitCommand::Make16x16 => 16,
            InitCommand::Make32x32 => 32,
        }
    }
}

/// What an `Editor` stands for.
pub struct EditorView {
    pub history: Seq<Command>,
    pub state: Option<EditorStateView>,
}

impl EditorView {
    /// The state, where there is one, is well formed.
    pub open spec fn wf(self) -> bool {
        match self.state {
            Some(s) => s.wf(),
            None => true,
        }
    }

    /// The command can be carried out: a command on the grid alone names a
    /// coordinate of the grid, where there is a grid.
    pub open spec fn admits(self, cmd: Command) -> bool {
        match (cmd, self.state) {
            (Command::Auto(c), Some(s)) => c.fits(s.bitmap),
            _ => true,
        }
    }

    /// The state after the command, or nothing where the command fails.
    /// `Init` makes a clear square grid with the cursor at its origin; every
    /// other command needs a state.
    pub open spec fn step(self, cmd: Command) -> Option<EditorStateView> {
        match cmd {
            Command::Init(c) => Some(
                EditorStateView { bitmap: BitmapView::blank(c.side(), c.side()), cursor: (0, 0) },
            ),
            Command::Auto(c) => match self.state {
                Some(s) => Some(EditorStateView { bitmap: c.apply(s.bitmap), ..s }),
                None => None,
            },
            Command::Edit(c) => match self.state {
                Some(s) => s.edit(c),
                None => None,
            },
        }
    }

    /// The editor after the command: the command joins the history whatever
    /// comes of it, and the state changes only where it succeeds.
    pub open spec fn eval(self, cmd: Command) -> EditorView {
        EditorView {
            history: self.history.push(cmd),
            state: match self.step(cmd) {
                Some(s) => Some(s),
                None => self.state,
            },
        }
    }
}

impl View for Editor {
    type V = EditorView;

    open spec fn view(&self) -> EditorView {
        EditorView {
            history: self.history@,
            state: match self.state {
                Some(s) => Some(s@),
                None => None,
            },
        }
    }
}

impl Clone for Bitmap {
    fn clone(&self) -> (r: Bitmap)
        ensures
            r@ == self@,
    {
        let mut bits: Vec<Vec<bool>> = Vec::new();
        let mut i: usize = 0;
        while i < self.bits.len()
            invariant
                i <= self.bits.len(),
                bits.len() == i,
                forall|k: int| 0 <= k < i ==> bits@[k]@ == self.bits@[k]@,
            decreases self.bits.len() - i,
        {
            let line = &self.bits[i];
            let mut copy: Vec<bool> = Vec::new();
            let mut j: usize = 0;
            while j < line.len()
                invariant
                    j <= line.len(),
                    copy.len() == j,
                    forall|k: int| 0 <= k < j ==> copy@[k] == line@[k],
                decreases line.len() - j,
            {
                copy.push(line[j]);
                j += 1;
            }
            assert(copy@ =~= line@);
            bits.push(copy);
            i += 1;
        }
        let r = Bitmap { width: self.width, height: self.height, major: self.major, bits };
        assert(r@.lines =~= self@.lines);
        r
    }
}

impl Bitmap {
    /// Whether the lines agree with the declared size.
    pub fn is_wf(&self) -> (r: bool)
        ensures
            r == self@.wf(),
    {
        let (outer, inner) = match self.major {
            Major::Row => (self.height, self.width),
            Major::Col => (self.width, self.height),
        };
        if self.bits.len() != outer {
            return false;
        }
        let mut i: usize = 0;
        while i < self.bits.len()
            invariant
                i <= self.bits.len(),
                self.bits@.len() == outer,
                (outer, inner) == (match self.major {
                    Major::Row => (self.height, self.width),
                    Major::Col => (self.width, self.height),
                }),
                forall|k: int| 0 <= k < i ==> self.bits@[k]@.len() == inner,
            decreases self.bits.len() - i,
        {
            if self.bits[i].len() != inner {
                assert(self@.lines[i as int].len() != inner);
                return false;
            }
            i += 1;
        }
        assert forall|k: int| 0 <= k < self@.lines.len() implies (#[trigger] self@.lines[k]).len()
            == inner by {
            assert(self.bits@[k]@.len() == inner);
        }
        true
    }
}

impl EditorState {
    /// Whether the grid is well formed and the cursor is on it.
    pub fn is_wf(&self) -> (r: bool)
        ensures
            r == self@.wf(),
    {
        self.bitmap.is_wf() && self.cursor.0 < self.bitmap.width && self.cursor.1
            < self.bitmap.height
    }
}

impl Editor {
    /// Whether the state, where there is one, is well formed.
    pub fn is_wf(&self) -> (r: bool)
        ensures
            r == self@.wf(),
    {
        match &self.state {
            Some(st) => st.is_wf(),
            None => true,
        }
    }

    /// Whether the command can be carried out.
    pub fn does_admit(&self, command: &Command) -> (r: bool)
        ensures
            r == self@.admits(*command),
    {
        match command {
            Command::Auto(AutoCommand::ToggleBit(x, y)) => match &self.state {
                Some(st) => *x < st.bitmap.width && *y < st.bitmap.height,
                None => true,
            },
            Command::Auto(AutoCommand::SetBit(x, y, _)) => match &self.state {
                Some(st) => *x < st.bitmap.width && *y < st.bitmap.height,
                None => true,
            },
            _ => true,
        }
    }
}

} // verus!
