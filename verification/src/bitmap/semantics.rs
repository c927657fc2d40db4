//! What the commands of the bitmap editor do.

use crate::bitmap::{
    AutoCommand, Bitmap, BitmapView, Command, EditCommand, Editor, EditorState, EditorStateView,
    EditorView, InitCommand, Major,
};
use crate::types::lang::Dir2D;
use vstd::prelude::*;

verus! {

/// A grid of `w` by `h` bits, all clear, in row order.
pub fn bitmap_init(w: usize, h: usize) -> (bitmap: Bitmap)
    ensures
        bitmap@ == BitmapView::blank(w as nat, h as nat),
        bitmap@.wf(),
{
    let mut bits: Vec<Vec<bool>> = Vec::new();
    let mut i: usize = 0;
    while i < h
        invariant
            i <= h,
            bits.len() == i,
            forall|k: int| 0 <= k < i ==> bits@[k]@ == Seq::new(w as nat, |j: int| false),
        decreases h - i,
    {
        let mut row: Vec<bool> = Vec::new();
        let mut j: usize = 0;
        while j < w
            invariant
                j <= w,
                row.len() == j,
                forall|k: int| 0 <= k < j ==> row@[k] == false,
            decreases w - j,
        {
            row.push(false);
            j += 1;
        }
        assert(row@ =~= Seq::new(w as nat, |j: int| false));
        bits.push(row);
        i += 1;
    }
    let bitmap = Bitmap { width: w, height: h, major: Major::Row, bits };
    assert(bitmap@.lines =~= BitmapView::blank(w as nat, h as nat).lines);
    bitmap
}

/// Sets the bit at column `x` of row `y` to `b`.
pub fn bitmap_set_bit(bitmap: &mut Bitmap, x: usize, y: usize, b: bool)
    requires
        old(bitmap)@.wf(),
        old(bitmap)@.holds(x as int, y as int),
    ensures
        final(bitmap)@ == old(bitmap)@.set(x as int, y as int, b),
        final(bitmap)@.wf(),
{
    let (i, j) = match bitmap.major {
        Major::Row => (y, x),
        Major::Col => (x, y),
    };
    assert(bitmap@.lines[i as int] == bitmap.bits@[i as int]@);
    let mut line: Vec<bool> = Vec::new();
    core::mem::swap(&mut bitmap.bits[i], &mut line);
    line[j] = b;
    bitmap.bits[i] = line;
    assert(bitmap@.lines =~= old(bitmap)@.set(x as int, y as int, b).lines);
    assert(bitmap@.wf()) by {
        assert forall|k: int| 0 <= k < bitmap@.lines.len() implies (#[trigger] bitmap@.lines[k]).len()
            == old(bitmap)@.lines[k].len() by {}
    }
}

/// The bit at column `x` of row `y`.
pub fn bitmap_get_bit(bitmap: &Bitmap, x: usize, y: usize) -> (b: bool)
    requires
        bitmap@.wf(),
        bitmap@.holds(x as int, y as int),
    ensures
        b == bitmap@.bit(x as int, y as int),
{
    match bitmap.major {
        Major::Row => {
            assert(bitmap@.lines[y as int] == bitmap.bits@[y as int]@);
            bitmap.bits[y][x]
        },
        Major::Col => {
            assert(bitmap@.lines[x as int] == bitmap.bits@[x as int]@);
            bitmap.bits[x][y]
        },
    }
}

/// The declared width and height.
pub fn bitmap_get_size(bitmap: &Bitmap) -> (size: (usize, usize))
    ensures
        size == (bitmap.width, bitmap.height),
{
    (bitmap.width, bitmap.height)
}

/// Flips the bit at column `x` of row `y` and returns its new value.
pub fn bitmap_toggle_bit(bitmap: &mut Bitmap, x: usize, y: usize) -> (b: bool)
    requires
        old(bitmap)@.wf(),
        old(bitmap)@.holds(x as int, y as int),
    ensures
        final(bitmap)@ == old(bitmap)@.toggle(x as int, y as int),
        final(bitmap)@.wf(),
        b == !old(bitmap)@.bit(x as int, y as int),
{
    let b = bitmap_get_bit(bitmap, x, y);
    bitmap_set_bit(bitmap, x, y, !b);
    !b
}

/// Carries out a command on the grid alone. The command must name a
/// coordinate of the grid; it then always succeeds.
pub fn bitmap_eval(bitmap: &mut Bitmap, command: &AutoCommand) -> (res: Result<(), String>)
    requires
        old(bitmap)@.wf(),
        command.fits(old(bitmap)@),
    ensures
        res is Ok,
        final(bitmap)@ == command.apply(old(bitmap)@),
        final(bitmap)@.wf(),
{
    match command {
        AutoCommand::ToggleBit(x, y) => {
            let _ = bitmap_toggle_bit(bitmap, *x, *y);
        },
        AutoCommand::SetBit(x, y, b) => {
            bitmap_set_bit(bitmap, *x, *y, *b);
        },
    }
    Ok(())
}

/// The message of the one edit command that can fail.
pub open spec fn move_abs_message() -> Seq<char> {
    "MoveAbs: invalid coordinate"@
}

/// The message of a command that needs a state where there is none.
pub open spec fn no_state_message() -> Seq<char> {
    "Invalid editor state"@
}

/// Carries out an edit command. A relative move stops at the edge of the
/// grid; an absolute move off the grid fails and changes nothing.
pub fn editor_state_eval(editor: &mut EditorState, command: &EditCommand) -> (res: Result<
    (),
    String,
>)
    requires
        old(editor)@.wf(),
    ensures
        match old(editor)@.edit(*command) {
            Some(s) => res is Ok && final(editor)@ == s,
            None => (res matches Err(m) && m@ == move_abs_message()) && final(editor)@ == old(
                editor,
            )@,
        },
        final(editor)@.wf(),
{
    match command {
        EditCommand::MoveRel(dir) => {
            let (w, h) = (editor.bitmap.width, editor.bitmap.height);
            let (x, y) = editor.cursor;
            editor.cursor = match dir {
                Dir2D::Left => (if x == 0 { 0 } else { x - 1 }, y),
                Dir2D::Right => (if x + 1 >= w { w - 1 } else { x + 1 }, y),
                Dir2D::Up => (x, if y == 0 { 0 } else { y - 1 }),
                Dir2D::Down => (x, if y + 1 >= h { h - 1 } else { y + 1 }),
            };
            Ok(())
        },
        EditCommand::MoveAbs(x, y) => {
            if *x < editor.bitmap.width && *y < editor.bitmap.height {
                editor.cursor = (*x, *y);
                Ok(())
            } else {
                Err("MoveAbs: invalid coordinate".to_owned())
            }
        },
        EditCommand::Toggle => {
            let (x, y) = editor.cursor;
            let _ = bitmap_toggle_bit(&mut editor.bitmap, x, y);
            Ok(())
        },
    }
}

/// Gives one command to the editor. The command is added to the history
/// first. `Init` makes a new state; any other command fails where there is
/// no state, and is else carried out on it.
pub fn editor_eval(editor: &mut Editor, command: &Command) -> (res: Result<(), String>)
    requires
        old(editor)@.wf(),
        old(editor)@.admits(*command),
    ensures
        final(editor)@ == old(editor)@.eval(*command),
        final(editor)@.wf(),
        res is Ok <==> old(editor)@.step(*command) is Some,
        res matches Err(m) ==> m@ == (if old(editor)@.state is None {
            no_state_message()
        } else {
            move_abs_message()
        }),
{
    editor.history.push(*command);
    match command {
        Command::Init(c) => {
            let side: usize = match c {
                InitCommand::Make8x8 => 8,
                InitCommand::Make16x16 => 16,
                InitCommand::Make32x32 => 32,
            };
            editor.state = Some(EditorState { bitmap: bitmap_init(side, side), cursor: (0, 0) });
            Ok(())
        },
        Command::Auto(c) => match editor.state.take() {
            None => Err("Invalid editor state".to_owned()),
            Some(st) => {
                let mut st = st;
                let res = bitmap_eval(&mut st.bitmap, c);
                editor.state = Some(st);
                res
            },
        },
        Command::Edit(c) => match editor.state.take() {
            None => Err("Invalid editor state".to_owned()),
            Some(st) => {
                let mut st = st;
                let res = editor_state_eval(&mut st, c);
                editor.state = Some(st);
                res
            },
        },
    }
}

} // verus!
