//! The states that the engine starts from.

use crate::candid::types::{menutype_of_idlprog, IdlProg};
use crate::candid::{Config, Repl};
use crate::menu;
use crate::menu::model::{CommandView, EditorView, Tree, Zipper};
use crate::menu::semantics::editor_eval;
use crate::menu::{MenuTree, MenuType};
use crate::types::lang::{Editor, Frame, Name, State};
use vstd::prelude::*;

verus! {

/// The menu editor set up on a blank of the schema `s`: the cursor is at the
/// root, and the one command in the history is the one that set it up.
pub open spec fn blank_menu(s: crate::menu::model::Schema) -> EditorView {
    EditorView::fresh().eval(CommandView::Init(Tree::Blank(s), s))
}

/// A frame without a name, with nothing to follow, in which the menu editor
/// is set up on a blank of `menu_type`.
pub fn menu_frame(menu_type: MenuType) -> (frame: Frame)
    ensures
        frame.name == Name::Void,
        frame.cont.var == Name::Void,
        frame.cont.commands@.len() == 0,
        frame.editor matches Editor::Menu(ed) && ed@ == blank_menu(menu_type@) && ed@.wf(),
{
    let mut editor = menu::Editor::new();
    let command = menu::Command::Init(
        menu::InitCommand::Default(MenuTree::Blank(menu_type.clone()), menu_type),
    );
    let _ = editor_eval(&mut editor, &command);
    Frame::from_editor(Editor::Menu(Box::new(editor)))
}

/// The state to start from with the interface description `p`: no frame
/// waits, and the menu editor is set up on a blank of the schema of the
/// service.
pub fn init_state(p: &IdlProg) -> (state: State)
    requires
        p@.wf(),
    ensures
        state.stack@.len() == 0,
        state.frame.editor matches Editor::Menu(ed) && ed@ == blank_menu(p@.schema()),
{
    State { stack: Vec::new(), frame: menu_frame(menutype_of_idlprog(p)) }
}

/// The state to start a session from with the service `p` of the canister
/// `canister_id` at `url`: the session waits with nothing on display and no
/// call made, and the menu editor is set up on a blank of the schema of the
/// service.
pub fn init(url: &str, canister_id: &str, p: &IdlProg) -> (state: State)
    requires
        p@.wf(),
    ensures
        state.stack@.len() == 1,
        state.stack@[0].editor matches Editor::CandidRepl(repl) && repl@ == (crate::candid::ReplView {
            replica_url: url@,
            canister_id: canister_id@,
            menu_type: p@.schema(),
            display: Seq::empty(),
            history: Seq::empty(),
        }),
        state.frame.editor matches Editor::Menu(ed) && ed@ == blank_menu(p@.schema()),
{
    let mt = menutype_of_idlprog(p);
    let repl = Repl {
        history: Vec::new(),
        display: Vec::new(),
        config: Config {
            menu_type: mt.clone(),
            replica_url: url.to_owned(),
            canister_id: canister_id.to_owned(),
        },
    };
    assert(repl@.display =~= Seq::empty());
    assert(repl@.history =~= Seq::empty());
    let mut stack: Vec<Frame> = Vec::new();
    stack.push(Frame::from_editor(Editor::CandidRepl(Box::new(repl))));
    State { stack, frame: menu_frame(mt) }
}

} // verus!
