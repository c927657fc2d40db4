//! The engine: commands and events handed to the editor of the frame at
//! work.

use crate::bitmap;
use crate::candid;
use crate::menu;
use crate::render::pen::Drawn;
use crate::render::Render;
use crate::types::render::{elms_model, ElmView, Elms};
use crate::menu::model::{CommandView, EditCommand, EditError, HaltView};
use crate::menu::semantics::{ctx_tag_of, tree_tag_of};
use crate::types::event::Event;
use crate::types::lang::{Command, Editor, State};
use vstd::prelude::*;

verus! {

/// Why a command to the engine did not simply succeed.
#[derive(Debug)]
pub enum Failure {
    /// The menu editor halted: with a failure, or with the committed tree.
    Menu(menu::Halt),
    /// The bitmap editor failed, with its message.
    Bitmap(String),
    /// A bitmap command where the editor at work is not the bitmap editor.
    BitmapCommandElsewhere,
    /// A command that is not for bitmaps where the bitmap editor is at work.
    OtherCommandForBitmap,
    /// A menu command where the editor at work is not the menu editor.
    MenuCommandElsewhere,
    /// A command that is not for menus where the menu editor is at work.
    OtherCommandForMenu,
    /// No editor carries such a command out yet.
    NotImplemented,
}

/// Where a command goes, given the editor at work. The first rule that
/// applies decides: a bitmap command goes to the bitmap editor and fails
/// with any other; the bitmap editor fails on any other command; likewise
/// for menus; every other pairing is not implemented.
pub enum Route {
    Bitmap(bitmap::Command),
    Menu,
    Fail(Failure),
}

pub open spec fn route(command: Command, editor: Editor) -> Route {
    match (command, editor) {
        (Command::Bitmap(bc), Editor::Bitmap(_)) => Route::Bitmap(bc),
        (Command::Bitmap(_), _) => Route::Fail(Failure::BitmapCommandElsewhere),
        (_, Editor::Bitmap(_)) => Route::Fail(Failure::OtherCommandForBitmap),
        (Command::Menu(_), Editor::Menu(_)) => Route::Menu,
        (Command::Menu(_), _) => Route::Fail(Failure::MenuCommandElsewhere),
        (_, Editor::Menu(_)) => Route::Fail(Failure::OtherCommandForMenu),
        _ => Route::Fail(Failure::NotImplemented),
    }
}

/// The command can be carried out on a sound state: where it goes to the
/// bitmap editor, that editor is well formed and admits it; where it goes to
/// the menu editor, that editor and the command are well formed.
pub open spec fn admits(state: State, command: Command) -> bool {
    match (command, state.frame.editor) {
        (Command::Bitmap(bc), Editor::Bitmap(be)) => be@.wf() && be@.admits(bc),
        (Command::Menu(mc), Editor::Menu(me)) => me@.wf() && mc@.wf(),
        _ => true,
    }
}

/// Whether the command can be carried out on the state.
pub fn is_admitted(state: &State, command: &Command) -> (r: bool)
    ensures
        r == admits(*state, *command),
{
    match command {
        Command::Bitmap(bc) => match &state.frame.editor {
            Editor::Bitmap(be) => be.is_wf() && be.does_admit(bc),
            _ => true,
        },
        Command::Menu(mc) => match &state.frame.editor {
            Editor::Menu(me) => me.is_wf() && mc.is_wf(),
            _ => true,
        },
        _ => true,
    }
}

/// Hands `command` to the editor of the frame at work. Nothing but that
/// editor changes, and it changes as its own `editor_eval` says.
pub fn command_eval(state: &mut State, command: &Command) -> (res: Result<(), Failure>)
    requires
        admits(*old(state), *command),
    ensures
        final(state).stack == old(state).stack,
        final(state).frame.name == old(state).frame.name,
        final(state).frame.cont == old(state).frame.cont,
        match route(*command, old(state).frame.editor) {
            Route::Bitmap(bc) => {
                &&& final(state).frame.editor matches Editor::Bitmap(be)
                &&& be@ == old(state).frame.editor->Bitmap_0@.eval(bc)
                &&& be@.wf()
                &&& match res {
                    Ok(()) => old(state).frame.editor->Bitmap_0@.step(bc) is Some,
                    Err(Failure::Bitmap(m)) => {
                        &&& old(state).frame.editor->Bitmap_0@.step(bc) is None
                        &&& m@ == (if old(state).frame.editor->Bitmap_0@.state is None {
                            bitmap::semantics::no_state_message()
                        } else {
                            bitmap::semantics::move_abs_message()
                        })
                    },
                    _ => false,
                }
            },
            Route::Menu => {
                &&& final(state).frame.editor matches Editor::Menu(me)
                &&& me@.wf()
                &&& match res {
                    Ok(()) => menu::semantics::ran(
                        old(state).frame.editor->Menu_0@,
                        command->Menu_0@,
                        me@,
                        Ok(()),
                    ),
                    Err(Failure::Menu(h)) => menu::semantics::ran(
                        old(state).frame.editor->Menu_0@,
                        command->Menu_0@,
                        me@,
                        Err(h),
                    ),
                    _ => false,
                }
            },
            Route::Fail(f) => res == Err::<(), Failure>(f) && final(state).frame.editor == old(
                state,
            ).frame.editor,
        },
{
    match command {
        Command::Bitmap(bc) => match &mut state.frame.editor {
            Editor::Bitmap(be) => match bitmap::semantics::editor_eval(be, bc) {
                Ok(()) => Ok(()),
                Err(m) => Err(Failure::Bitmap(m)),
            },
            _ => Err(Failure::BitmapCommandElsewhere),
        },
        Command::Menu(mc) => match &mut state.frame.editor {
            Editor::Bitmap(_) => Err(Failure::OtherCommandForBitmap),
            Editor::Menu(me) => match menu::semantics::editor_eval(me, mc) {
                Ok(()) => Ok(()),
                Err(h) => Err(Failure::Menu(h)),
            },
            _ => Err(Failure::MenuCommandElsewhere),
        },
        _ => match &state.frame.editor {
            Editor::Bitmap(_) => Err(Failure::OtherCommandForBitmap),
            Editor::Menu(_) => Err(Failure::OtherCommandForMenu),
            _ => Err(Failure::NotImplemented),
        },
    }
}

/// The commands that an event stands for with the editor at work; `None`
/// where the event asks to leave. Only the bitmap editor and a menu editor
/// that has been set up respond to events.
pub open spec fn event_commands(state: State, event: Event) -> Option<Seq<Command>> {
    match state.frame.editor {
        Editor::Bitmap(_) => match bitmap::io::event_commands(event) {
            Some(cmds) => Some(
                Seq::new(cmds.len(), |i: int| Command::Bitmap(bitmap::Command::Edit(cmds[i]))),
            ),
            None => None,
        },
        Editor::Menu(me) => match me.state {
            Some(st) => match menu::io::event_commands(
                event,
                ctx_tag_of(st@.ctx),
                tree_tag_of(st@.tree),
            ) {
                Some(cmds) => Some(
                    Seq::new(cmds.len(), |i: int| Command::Menu(menu::Command::Edit(cmds[i]))),
                ),
                None => None,
            },
            None => None,
        },
        _ => None,
    }
}

/// The editor at work responds to events.
pub open spec fn responsive(state: State) -> bool {
    match state.frame.editor {
        Editor::Bitmap(_) => true,
        Editor::Menu(me) => me.state is Some,
        _ => false,
    }
}

/// Whether the editor at work responds to events.
pub fn is_responsive(state: &State) -> (r: bool)
    ensures
        r == responsive(*state),
{
    match &state.frame.editor {
        Editor::Bitmap(_) => true,
        Editor::Menu(me) => me.state.is_some(),
        _ => false,
    }
}

/// The commands that `event` stands for with the editor at work, or `Err`
/// where the event asks to leave.
pub fn commands_of_event(state: &State, event: &Event) -> (res: Result<Vec<Command>, ()>)
    requires
        responsive(*state),
    ensures
        match event_commands(*state, *event) {
            Some(cmds) => res matches Ok(v) && v@ == cmds,
            None => res is Err,
        },
{
    match &state.frame.editor {
        Editor::Bitmap(_) => match bitmap::io::edit_commands_of_event(event) {
            Ok(ed_cmds) => {
                let mut out: Vec<Command> = Vec::new();
                let mut i: usize = 0;
                while i < ed_cmds.len()
                    invariant
                        i <= ed_cmds.len(),
                        out.len() == i,
                        forall|k: int|
                            0 <= k < i ==> out@[k] == Command::Bitmap(
                                bitmap::Command::Edit(ed_cmds@[k]),
                            ),
                    decreases ed_cmds.len() - i,
                {
                    out.push(Command::Bitmap(bitmap::Command::Edit(ed_cmds[i])));
                    i += 1;
                }
                assert(out@ =~= event_commands(*state, *event)->Some_0);
                Ok(out)
            },
            Err(()) => Err(()),
        },
        Editor::Menu(ed) => match &ed.state {
            Some(st) => match menu::io::edit_commands_of_event(st, event) {
                Ok(ed_cmds) => {
                    let mut out: Vec<Command> = Vec::new();
                    let mut i: usize = 0;
                    while i < ed_cmds.len()
                        invariant
                            i <= ed_cmds.len(),
                            out.len() == i,
                            forall|k: int|
                                0 <= k < i ==> out@[k] == Command::Menu(
                                    menu::Command::Edit(ed_cmds@[k]),
                                ),
                        decreases ed_cmds.len() - i,
                    {
                        out.push(Command::Menu(menu::Command::Edit(ed_cmds[i])));
                        i += 1;
                    }
                    assert(out@ =~= event_commands(*state, *event)->Some_0);
                    Ok(out)
                },
                Err(()) => Err(()),
            },
            None => Err(()),
        },
        _ => Err(()),
    }
}

/// What the editor at work shows, or nothing where it cannot be drawn. An
/// editor of bitmaps or of menus that has not been set up shows nothing at
/// all; editors of chains and of grids cannot be drawn.
pub open spec fn shown(state: State) -> Drawn {
    match state.frame.editor {
        Editor::Bitmap(ed) => match ed.state {
            None => Some(Seq::empty()),
            Some(st) => if bitmap::io::drawable(st@) {
                Some(bitmap::io::editor_elms(st@))
            } else {
                None
            },
        },
        Editor::Menu(ed) => match ed.state {
            None => Some(Seq::empty()),
            Some(st) => menu::draw::menu_drawn(st@),
        },
        Editor::CandidRepl(repl) => candid::draw::repl_drawn(repl@),
        _ => None,
    }
}

/// What the editor at work shows, where it can be drawn.
pub fn render_elms(state: &State) -> (r: Option<Elms>)
    ensures
        match shown(*state) {
            Some(es) => r matches Some(x) && elms_model(x@) == es,
            None => r is None,
        },
{
    match &state.frame.editor {
        Editor::Bitmap(ed) => match &ed.state {
            None => {
                let elms: Elms = Vec::new();
                assert(elms_model(elms@) =~= Seq::<ElmView>::empty());
                Some(elms)
            },
            Some(st) => {
                if bitmap::io::is_drawable(st) {
                    match bitmap::io::render_elms(st) {
                        Ok(elms) => Some(elms),
                        Err(_) => None,
                    }
                } else {
                    None
                }
            },
        },
        Editor::Menu(ed) => match &ed.state {
            None => {
                let elms: Elms = Vec::new();
                assert(elms_model(elms@) =~= Seq::<ElmView>::empty());
                Some(elms)
            },
            Some(st) => menu::draw::draw_menu(st).done(),
        },
        Editor::CandidRepl(repl) => candid::draw::draw_repl(repl).done(),
        _ => None,
    }
}

} // verus!
