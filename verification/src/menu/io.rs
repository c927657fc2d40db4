//! From key events to edit commands.

use crate::menu::model::EditCommand;
use crate::menu::semantics::{ctx_tag, ctx_tag_of, tree_tag, tree_tag_of};
use crate::menu::{MenuState, Tag};
use crate::types::event::Event;
use vstd::prelude::*;

verus! {

/// `key` is the key named `name`.
pub fn key_is(key: &String, name: &str) -> (b: bool)
    ensures
        b == (key@ == name@),
{
    let other = name.to_owned();
    *key == other
}

/// The commands that a key stands for, given the kind of the frame around
/// the focus and the kind of the focus; `None` where the key asks to leave
/// the editor. The first rule that applies decides:
///
/// - `Escape` leaves; `Enter` commits; `Backspace` clears;
/// - on a blank, `Tab` and `ArrowRight` fill it;
/// - `ArrowLeft` ascends and `ArrowRight` descends;
/// - on a union, `ArrowUp` and `ArrowDown` choose the previous and next arm;
/// - in a record or a tuple, they move to the previous and next sibling;
/// - any other key stands for no command.
pub open spec fn key_commands(key: Seq<char>, ctx: Tag, tree: Tag) -> Option<Seq<EditCommand>> {
    if key == "Escape"@ {
        None
    } else if key == "Enter"@ {
        Some(seq![EditCommand::Commit])
    } else if key == "Backspace"@ {
        Some(seq![EditCommand::Clear])
    } else if key == "Tab"@ && tree == Tag::Blank {
        Some(seq![EditCommand::AutoFill])
    } else if key == "ArrowRight"@ && tree == Tag::Blank {
        Some(seq![EditCommand::AutoFill])
    } else if key == "ArrowLeft"@ {
        Some(seq![EditCommand::Ascend])
    } else if key == "ArrowRight"@ {
        Some(seq![EditCommand::Descend])
    } else if key == "ArrowUp"@ && tree == Tag::Variant {
        Some(seq![EditCommand::PrevVariant])
    } else if key == "ArrowDown"@ && tree == Tag::Variant {
        Some(seq![EditCommand::NextVariant])
    } else if key == "ArrowUp"@ && (ctx == Tag::Product || ctx == Tag::Tup) {
        Some(seq![EditCommand::PrevSibling])
    } else if key == "ArrowDown"@ && (ctx == Tag::Product || ctx == Tag::Tup) {
        Some(seq![EditCommand::NextSibling])
    } else {
        Some(Seq::empty())
    }
}

/// The commands that an event stands for; `None` where it asks to leave the
/// editor. Only a key going down stands for any command.
pub open spec fn event_commands(event: Event, ctx: Tag, tree: Tag) -> Option<Seq<EditCommand>> {
    match event {
        Event::Quit => None,
        Event::KeyDown(k) => key_commands(k.key@, ctx, tree),
        Event::KeyUp(_) => Some(Seq::empty()),
    }
}

fn one(c: EditCommand) -> (v: Vec<EditCommand>)
    ensures
        v@ == seq![c],
{
    let mut v: Vec<EditCommand> = Vec::new();
    v.push(c);
    assert(v@ =~= seq![c]);
    v
}

/// The edit commands that `event` stands for with the cursor where it is,
/// or `Err` where the event asks to leave the editor.
pub fn edit_commands_of_event(menu: &MenuState, event: &Event) -> (res: Result<Vec<EditCommand>, ()>)
    ensures
        match event_commands(*event, ctx_tag_of(menu@.ctx), tree_tag_of(menu@.tree)) {
            Some(cmds) => res matches Ok(v) && v@ == cmds,
            None => res is Err,
        },
{
    let ctx = ctx_tag(&menu.ctx);
    let tree = tree_tag(&menu.tree);
    match event {
        Event::Quit => Err(()),
        Event::KeyDown(kei) => {
            let key = &kei.key;
            if key_is(key, "Escape") {
                Err(())
            } else if key_is(key, "Enter") {
                Ok(one(EditCommand::Commit))
            } else if key_is(key, "Backspace") {
                Ok(one(EditCommand::Clear))
            } else if key_is(key, "Tab") && tree == Tag::Blank {
                Ok(one(EditCommand::AutoFill))
            } else if key_is(key, "ArrowRight") && tree == Tag::Blank {
                Ok(one(EditCommand::AutoFill))
            } else if key_is(key, "ArrowLeft") {
                Ok(one(EditCommand::Ascend))
            } else if key_is(key, "ArrowRight") {
                Ok(one(EditCommand::Descend))
            } else if key_is(key, "ArrowUp") && tree == Tag::Variant {
                Ok(one(EditCommand::PrevVariant))
            } else if key_is(key, "ArrowDown") && tree == Tag::Variant {
                Ok(one(EditCommand::NextVariant))
            } else if key_is(key, "ArrowUp") && (ctx == Tag::Product || ctx == Tag::Tup) {
                Ok(one(EditCommand::PrevSibling))
            } else if key_is(key, "ArrowDown") && (ctx == Tag::Product || ctx == Tag::Tup) {
                Ok(one(EditCommand::NextSibling))
            } else {
                Ok(Vec::new())
            }
        },
        Event::KeyUp(_) => Ok(Vec::new()),
    }
}

} // verus!
