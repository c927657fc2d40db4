use zqm_engine::bitmap::io::edit_commands_of_event;
use zqm_engine::bitmap::semantics::{
    bitmap_eval, bitmap_get_bit, bitmap_get_size, bitmap_init, bitmap_set_bit, bitmap_toggle_bit,
    editor_eval, editor_state_eval,
};
use zqm_engine::bitmap::{
    AutoCommand, Bitmap, Command, EditCommand, Editor, EditorState, InitCommand, Major,
};
use zqm_engine::types::event::{Event, KeyEventInfo};
use zqm_engine::types::lang::Dir2D;

fn key(k: &str) -> Event {
    Event::KeyDown(KeyEventInfo {
        key: k.to_string(),
        alt: false,
        ctrl: false,
        meta: false,
        shift: false,
    })
}

#[test]
fn a_new_bitmap_is_clear_and_in_row_order() {
    let b = bitmap_init(3, 2);
    assert_eq!(bitmap_get_size(&b), (3, 2));
    assert_eq!(b.major, Major::Row);
    assert_eq!(b.bits, vec![vec![false; 3]; 2]);
    for x in 0..3 {
        for y in 0..2 {
            assert!(!bitmap_get_bit(&b, x, y));
        }
    }
}

#[test]
fn set_get_and_toggle_one_bit() {
    let mut b = bitmap_init(3, 2);
    bitmap_set_bit(&mut b, 2, 1, true);
    assert!(bitmap_get_bit(&b, 2, 1));
    assert_eq!(b.bits, vec![vec![false, false, false], vec![false, false, true]]);
    assert!(!bitmap_toggle_bit(&mut b, 2, 1));
    assert!(!bitmap_get_bit(&b, 2, 1));
    assert!(bitmap_toggle_bit(&mut b, 0, 0));
    assert_eq!(b.bits, vec![vec![true, false, false], vec![false, false, false]]);
}

#[test]
fn column_order_indexes_columns_first() {
    let mut b = Bitmap {
        width: 3,
        height: 2,
        major: Major::Col,
        bits: vec![vec![false; 2]; 3],
    };
    bitmap_set_bit(&mut b, 2, 1, true);
    assert_eq!(b.bits, vec![vec![false, false], vec![false, false], vec![false, true]]);
    assert!(bitmap_get_bit(&b, 2, 1));
    assert!(!bitmap_get_bit(&b, 1, 1));
    let c = b.clone();
    assert_eq!(c.bits, b.bits);
    assert_eq!(bitmap_get_size(&c), (3, 2));
}

#[test]
fn auto_commands_on_the_bitmap() {
    let mut b = bitmap_init(2, 2);
    assert!(bitmap_eval(&mut b, &AutoCommand::SetBit(1, 0, true)).is_ok());
    assert!(bitmap_eval(&mut b, &AutoCommand::ToggleBit(0, 1)).is_ok());
    assert!(bitmap_eval(&mut b, &AutoCommand::ToggleBit(1, 0)).is_ok());
    assert_eq!(b.bits, vec![vec![false, false], vec![true, false]]);
}

#[test]
fn the_cursor_stops_at_the_edges() {
    let mut st = EditorState { bitmap: bitmap_init(2, 2), cursor: (0, 0) };
    assert!(editor_state_eval(&mut st, &EditCommand::MoveRel(Dir2D::Left)).is_ok());
    assert_eq!(st.cursor, (0, 0));
    assert!(editor_state_eval(&mut st, &EditCommand::MoveRel(Dir2D::Up)).is_ok());
    assert_eq!(st.cursor, (0, 0));
    assert!(editor_state_eval(&mut st, &EditCommand::MoveRel(Dir2D::Right)).is_ok());
    assert_eq!(st.cursor, (1, 0));
    assert!(editor_state_eval(&mut st, &EditCommand::MoveRel(Dir2D::Right)).is_ok());
    assert_eq!(st.cursor, (1, 0));
    assert!(editor_state_eval(&mut st, &EditCommand::MoveRel(Dir2D::Down)).is_ok());
    assert!(editor_state_eval(&mut st, &EditCommand::MoveRel(Dir2D::Down)).is_ok());
    assert_eq!(st.cursor, (1, 1));
    assert!(editor_state_eval(&mut st, &EditCommand::Toggle).is_ok());
    assert!(bitmap_get_bit(&st.bitmap, 1, 1));
}

#[test]
fn an_absolute_move_off_the_grid_is_refused() {
    let mut st = EditorState { bitmap: bitmap_init(2, 3), cursor: (1, 1) };
    assert_eq!(
        editor_state_eval(&mut st, &EditCommand::MoveAbs(2, 0)),
        Err("MoveAbs: invalid coordinate".to_string())
    );
    assert_eq!(
        editor_state_eval(&mut st, &EditCommand::MoveAbs(0, 3)),
        Err("MoveAbs: invalid coordinate".to_string())
    );
    assert_eq!(st.cursor, (1, 1));
    assert!(editor_state_eval(&mut st, &EditCommand::MoveAbs(1, 2)).is_ok());
    assert_eq!(st.cursor, (1, 2));
}

#[test]
fn the_editor_needs_a_state_and_logs_every_command() {
    let mut ed = Editor { history: vec![], state: None };
    assert_eq!(
        editor_eval(&mut ed, &Command::Edit(EditCommand::Toggle)),
        Err("Invalid editor state".to_string())
    );
    assert_eq!(
        editor_eval(&mut ed, &Command::Auto(AutoCommand::ToggleBit(0, 0))),
        Err("Invalid editor state".to_string())
    );
    assert!(ed.state.is_none());
    for (c, side) in [
        (InitCommand::Make8x8, 8),
        (InitCommand::Make16x16, 16),
        (InitCommand::Make32x32, 32),
    ] {
        assert!(editor_eval(&mut ed, &Command::Init(c)).is_ok());
        let st = ed.state.as_ref().unwrap();
        assert_eq!(bitmap_get_size(&st.bitmap), (side, side));
        assert_eq!(st.bitmap.bits.len(), side);
        assert_eq!(st.bitmap.bits[side - 1].len(), side);
        assert_eq!(st.cursor, (0, 0));
    }
    assert!(editor_eval(&mut ed, &Command::Edit(EditCommand::MoveAbs(31, 30))).is_ok());
    assert!(editor_eval(&mut ed, &Command::Edit(EditCommand::Toggle)).is_ok());
    assert!(editor_eval(&mut ed, &Command::Auto(AutoCommand::SetBit(0, 0, true))).is_ok());
    assert_eq!(
        editor_eval(&mut ed, &Command::Edit(EditCommand::MoveAbs(32, 0))),
        Err("MoveAbs: invalid coordinate".to_string())
    );
    let st = ed.state.as_ref().unwrap();
    assert!(bitmap_get_bit(&st.bitmap, 31, 30));
    assert!(bitmap_get_bit(&st.bitmap, 0, 0));
    assert!(!bitmap_get_bit(&st.bitmap, 30, 31));
    assert_eq!(st.cursor, (31, 30));
    assert_eq!(ed.history.len(), 9);
    assert_eq!(ed.history[0], Command::Edit(EditCommand::Toggle));
    assert_eq!(ed.history[8], Command::Edit(EditCommand::MoveAbs(32, 0)));
}

#[test]
fn keys_of_the_bitmap_editor() {
    assert_eq!(edit_commands_of_event(&Event::Quit), Err(()));
    assert_eq!(edit_commands_of_event(&key("Escape")), Err(()));
    assert_eq!(edit_commands_of_event(&key(" ")), Ok(vec![EditCommand::Toggle]));
    assert_eq!(
        edit_commands_of_event(&key("ArrowLeft")),
        Ok(vec![EditCommand::MoveRel(Dir2D::Left)])
    );
    assert_eq!(
        edit_commands_of_event(&key("ArrowRight")),
        Ok(vec![EditCommand::MoveRel(Dir2D::Right)])
    );
    assert_eq!(
        edit_commands_of_event(&key("ArrowUp")),
        Ok(vec![EditCommand::MoveRel(Dir2D::Up)])
    );
    assert_eq!(
        edit_commands_of_event(&key("ArrowDown")),
        Ok(vec![EditCommand::MoveRel(Dir2D::Down)])
    );
    assert_eq!(edit_commands_of_event(&key("q")), Ok(vec![]));
    let up = Event::KeyUp(KeyEventInfo {
        key: " ".to_string(),
        alt: false,
        ctrl: false,
        meta: false,
        shift: false,
    });
    assert_eq!(edit_commands_of_event(&up), Ok(vec![]));
}
