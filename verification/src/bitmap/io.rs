//! From key events to edit commands of the bitmap editor.

use crate::bitmap::semantics::{bitmap_get_bit, bitmap_get_size};
use crate::bitmap::{EditCommand, EditorState, EditorStateView};
use crate::menu::io::key_is;
use crate::render::Render;
use crate::types::event::Event;
use crate::types::lang::Dir2D;
use crate::types::render::{elms_model, Color, Dim, ElmView, Elms, Fill, Pos, Rect};
use vstd::prelude::*;

verus! {

/// The commands that a key stands for; `None` where the key asks to leave
/// the editor: `Escape` leaves, the space bar flips the bit under the
/// cursor, the arrow keys move the cursor, any other key does nothing.
pub open spec fn key_commands(key: Seq<char>) -> Option<Seq<EditCommand>> {
    if key == "Escape"@ {
        None
    } else if key == " "@ {
        Some(seq![EditCommand::Toggle])
    } else if key == "ArrowLeft"@ {
        Some(seq![EditCommand::MoveRel(Dir2D::Left)])
    } else if key == "ArrowRight"@ {
        Some(seq![EditCommand::MoveRel(Dir2D::Right)])
    } else if key == "ArrowUp"@ {
        Some(seq![EditCommand::MoveRel(Dir2D::Up)])
    } else if key == "ArrowDown"@ {
        Some(seq![EditCommand::MoveRel(Dir2D::Down)])
    } else {
        Some(Seq::empty())
    }
}

/// The commands that an event stands for; `None` where it asks to leave.
pub open spec fn event_commands(event: Event) -> Option<Seq<EditCommand>> {
    match event {
        Event::Quit => None,
        Event::KeyDown(k) => key_commands(k.key@),
        Event::KeyUp(_) => Some(Seq::empty()),
    }
}

fn one(c: EditCommand) -> (v: Vec<EditCommand>)
    ensures
        v@ == seq![c],
{
    let mut v: Vec<EditCommand> = Vec::new();
    v.push(c);
    assert(v@ =~= seq![c]);
    v
}

/// The edit commands that `event` stands for, or `Err` where the event asks
/// to leave the editor.
pub fn edit_commands_of_event(event: &Event) -> (res: Result<Vec<EditCommand>, ()>)
    ensures
        match event_commands(*event) {
            Some(cmds) => res matches Ok(v) && v@ == cmds,
            None => res is Err,
        },
{
    match event {
        Event::Quit => Err(()),
        Event::KeyDown(kei) => {
            let key = &kei.key;
            if key_is(key, "Escape") {
                Err(())
            } else if key_is(key, " ") {
                Ok(one(EditCommand::Toggle))
            } else if key_is(key, "ArrowLeft") {
                Ok(one(EditCommand::MoveRel(Dir2D::Left)))
            } else if key_is(key, "ArrowRight") {
                Ok(one(EditCommand::MoveRel(Dir2D::Right)))
            } else if key_is(key, "ArrowUp") {
                Ok(one(EditCommand::MoveRel(Dir2D::Up)))
            } else if key_is(key, "ArrowDown") {
                Ok(one(EditCommand::MoveRel(Dir2D::Down)))
            } else {
                Ok(Vec::new())
            }
        },
        Event::KeyUp(_) => Ok(Vec::new()),
    }
}

// ---------------------------------------------------------------------------
// Drawing the editor

/// The side of the square of one bit, without its border.
pub open spec fn zoom() -> int {
    32
}

/// The width of the border around the square of one bit.
pub open spec fn border_width() -> int {
    2
}

/// The side of one cell: a square with its border on both sides.
pub open spec fn cell_width() -> int {
    zoom() + border_width() * 2
}

/// The colour of the border of the grid.
pub open spec fn grid_border_color() -> Color {
    Color::RGB(100, 80, 100)
}

/// The colour of the border of the cell under the cursor.
pub open spec fn cursor_border_color() -> Color {
    Color::RGB(150, 255, 150)
}

/// The colour of a cell, by whether its bit is set and whether the cursor
/// is on it.
pub open spec fn cell_color(is_set: bool, is_focus: bool) -> Color {
    match (is_set, is_focus) {
        (false, false) => Color::RGB(0, 0, 0),
        (false, true) => Color::RGB(0, 100, 0),
        (true, false) => Color::RGB(255, 225, 255),
        (true, true) => Color::RGB(240, 250, 240),
    }
}

/// The square of the bit at `(x, y)`, inside the border of its cell.
pub open spec fn cell_rect(x: int, y: int) -> Rect {
    Rect {
        pos: Pos {
            x: (x * cell_width() + border_width()) as isize,
            y: (y * cell_width() + border_width()) as isize,
        },
        dim: Dim { width: zoom() as usize, height: zoom() as usize },
    }
}

/// What is drawn for the bit at `(x, y)`: its square in the colour of the
/// cell, and over it the outline of the square.
pub open spec fn cell_elms(st: EditorStateView, x: int, y: int) -> Seq<ElmView> {
    seq![
        ElmView::Rect(
            cell_rect(x, y),
            Fill::Closed(cell_color(st.bitmap.bit(x, y), (x, y) == (st.cursor.0 as int, st.cursor.1 as int))),
        ),
        ElmView::Rect(cell_rect(x, y), Fill::Open(grid_border_color(), 1)),
    ]
}

/// What is drawn for the first `n` bits of column `x`, from the top.
pub open spec fn column_elms(st: EditorStateView, x: int, n: nat) -> Seq<ElmView>
    decreases n,
{
    if n == 0 {
        Seq::empty()
    } else {
        column_elms(st, x, (n - 1) as nat) + cell_elms(st, x, n - 1)
    }
}

/// What is drawn for the first `m` columns, from the left.
pub open spec fn columns_elms(st: EditorStateView, m: nat) -> Seq<ElmView>
    decreases m,
{
    if m == 0 {
        Seq::empty()
    } else {
        columns_elms(st, (m - 1) as nat) + column_elms(st, m - 1, st.bitmap.height)
    }
}

/// What is drawn for the editor: the whole grid in the colour of its
/// border, the cell under the cursor in the colour of the cursor, and then
/// the bits, column after column.
pub open spec fn editor_elms(st: EditorStateView) -> Seq<ElmView> {
    seq![
        ElmView::Rect(
            Rect {
                pos: Pos { x: 0, y: 0 },
                dim: Dim {
                    width: (st.bitmap.width * cell_width()) as usize,
                    height: (st.bitmap.height * cell_width()) as usize,
                },
            },
            Fill::Closed(grid_border_color()),
        ),
        ElmView::Rect(
            Rect {
                pos: Pos {
                    x: (st.cursor.0 * cell_width()) as isize,
                    y: (st.cursor.1 * cell_width()) as isize,
                },
                dim: Dim { width: cell_width() as usize, height: cell_width() as usize },
            },
            Fill::Closed(cursor_border_color()),
        ),
    ] + columns_elms(st, st.bitmap.width)
}

/// The editor can be drawn: it is well formed, and the far edges of the grid
/// are machine coordinates.
pub open spec fn drawable(st: EditorStateView) -> bool {
    &&& st.wf()
    &&& st.bitmap.width * 36 <= isize::MAX
    &&& st.bitmap.height * 36 <= isize::MAX
}

fn get_cell_color(is_set: bool, is_focus: bool) -> (c: Color)
    ensures
        c == cell_color(is_set, is_focus),
{
    match (is_set, is_focus) {
        (false, false) => Color::RGB(0, 0, 0),
        (false, true) => Color::RGB(0, 100, 0),
        (true, false) => Color::RGB(255, 225, 255),
        (true, true) => Color::RGB(240, 250, 240),
    }
}

/// Whether the editor can be drawn.
pub fn is_drawable(edit_state: &EditorState) -> (r: bool)
    ensures
        r == drawable(edit_state@),
{
    edit_state.is_wf() && edit_state.bitmap.width <= (isize::MAX as usize) / 36
        && edit_state.bitmap.height <= (isize::MAX as usize) / 36
}

/// What is drawn for the editor.
pub fn render_elms(edit_state: &EditorState) -> (res: Result<Elms, String>)
    requires
        drawable(edit_state@),
    ensures
        res matches Ok(elms) && elms_model(elms@) == editor_elms(edit_state@),
{
    let mut render: Render = Render::new();
    let (width, height) = bitmap_get_size(&edit_state.bitmap);
    let zoom: usize = 32;
    let border_width: usize = 2;
    let cell_width: usize = zoom + border_width * 2;
    let grid_border_color = Color::RGB(100, 80, 100);
    let cursor_border_color = Color::RGB(150, 255, 150);
    let ghost st = edit_state@;
    let cursor_rect = Rect::new(
        (edit_state.cursor.0 * cell_width) as isize,
        (edit_state.cursor.1 * cell_width) as isize,
        cell_width,
        cell_width,
    );
    let grid_rect = Rect::new(0, 0, width * cell_width, height * cell_width);
    render.rect(&grid_rect, Fill::Closed(grid_border_color));
    render.rect(&cursor_rect, Fill::Closed(cursor_border_color));
    let ghost head = render@.frame.elms;
    assert(head + columns_elms(st, 0) =~= head);
    let mut x: usize = 0;
    while x < width
        invariant
            drawable(edit_state@),
            st == edit_state@,
            width == st.bitmap.width,
            height == st.bitmap.height,
            cell_width == 36,
            zoom == 32,
            border_width == 2,
            grid_border_color == self::grid_border_color(),
            x <= width,
            render@.stack.len() == 0,
            render@.frame.elms == head + columns_elms(st, x as nat),
        decreases width - x,
    {
        let ghost col_start = render@.frame.elms;
        assert(col_start + column_elms(st, x as int, 0) =~= col_start);
        let mut y: usize = 0;
        while y < height
            invariant
                drawable(edit_state@),
                st == edit_state@,
                width == st.bitmap.width,
                height == st.bitmap.height,
                cell_width == 36,
                zoom == 32,
                border_width == 2,
                grid_border_color == self::grid_border_color(),
                x < width,
                y <= height,
                render@.stack.len() == 0,
                render@.frame.elms == col_start + column_elms(st, x as int, y as nat),
            decreases height - y,
        {
            let cell_rect = Rect::new(
                (x * cell_width + border_width) as isize,
                (y * cell_width + border_width) as isize,
                zoom,
                zoom,
            );
            let bit = bitmap_get_bit(&edit_state.bitmap, x, y);
            let is_focus = x == edit_state.cursor.0 && y == edit_state.cursor.1;
            let cell_color = get_cell_color(bit, is_focus);
            let ghost before = render@.frame.elms;
            render.rect(&cell_rect, Fill::Closed(cell_color));
            render.rect(&cell_rect, Fill::Open(grid_border_color, 1));
            y += 1;
            assert(render@.frame.elms =~= col_start + column_elms(st, x as int, y as nat)) by {
                assert(cell_rect == self::cell_rect(x as int, y - 1));
                assert(render@.frame.elms =~= before + cell_elms(st, x as int, y - 1));
            }
        }
        x += 1;
        assert(render@.frame.elms =~= head + columns_elms(st, x as nat));
    }
    assert(head =~= seq![
        ElmView::Rect(grid_rect, Fill::Closed(grid_border_color)),
        ElmView::Rect(cursor_rect, Fill::Closed(cursor_border_color)),
    ]);
    Ok(render.into_elms())
}

} // verus!
