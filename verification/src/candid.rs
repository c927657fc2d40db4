//! Values of an interface description, as far as the editor reads them.

pub mod draw;
pub mod types;
pub mod value;

use crate::menu::text::{tree_printable, tree_text};
use crate::menu::{MenuTree, MenuType};
use crate::candid::value::{named_elms_model, OutView};
use crate::menu::model::{Schema, Tree};
use crate::render::Out;
use crate::types::lang::{Name, NameView};
use crate::types::render::{Elm, ElmView};
use vstd::prelude::*;

verus! {

/// A span of time: whole seconds, and the billionths of a second beyond
/// them.
pub type Span = (u64, u32);

/// One call to the service, and what came of it.
#[derive(Debug, Hash)]
pub struct Call {
    pub method: String,
    pub args: MenuTree,
    pub args_idl: String,
    pub rets_idl: Result<String, String>,
    pub render_out: Option<Out>,
    /// When the call was made, as the time since the Unix epoch.
    pub timestamp: Span,
    /// How long the call took.
    pub duration: Span,
}

/// The session with a service: what is on display, and the calls so far.
#[derive(Debug, Hash)]
pub struct Repl {
    pub config: Config,
    pub display: Vec<(Name, Elm)>,
    pub history: Vec<Call>,
}

/// Where the service is, and the schema of what it takes.
#[derive(Debug, Hash)]
pub struct Config {
    pub replica_url: String,
    pub canister_id: String,
    pub menu_type: MenuType,
}

/// The name of a field known by its number, if the number is known.
pub open spec fn field_name(id: u32) -> Option<Seq<char>> {
    if id == 24860 {
        Some("ok"@)
    } else if id == 1269255460 {
        Some("rect"@)
    } else if id == 4996424 {
        Some("dim"@)
    } else if id == 5594516 {
        Some("pos"@)
    } else if id == 38537191 {
        Some("height"@)
    } else if id == 3395466758 {
        Some("width"@)
    } else if id == 120 {
        Some("x"@)
    } else if id == 121 {
        Some("y"@)
    } else if id == 240232876 {
        Some("closed"@)
    } else {
        None
    }
}

pub fn string_of_field_id(id: u32) -> (name: Option<String>)
    ensures
        match field_name(id) {
            Some(s) => name matches Some(n) && n@ == s,
            None => name is None,
        },
{
    if id == 24860 {
        Some("ok".to_owned())
    } else if id == 1269255460 {
        Some("rect".to_owned())
    } else if id == 4996424 {
        Some("dim".to_owned())
    } else if id == 5594516 {
        Some("pos".to_owned())
    } else if id == 38537191 {
        Some("height".to_owned())
    } else if id == 3395466758 {
        Some("width".to_owned())
    } else if id == 120 {
        Some("x".to_owned())
    } else if id == 121 {
        Some("y".to_owned())
    } else if id == 240232876 {
        Some("closed".to_owned())
    } else {
        None
    }
}

/// The tree written out as the text of an argument value.
pub fn idlargs_of_menutree(mt: &MenuTree) -> (args: String)
    requires
        tree_printable(mt@),
    ensures
        args@ == tree_text(mt@),
{
    mt.to_text()
}

/// The tree of arguments for a record: so far the record itself.
pub fn tuple_of_product(t: &MenuTree) -> (r: MenuTree)
    ensures
        r@ == t@,
{
    t.clone()
}

/// What a `Call` stands for.
pub struct CallView {
    pub method: Seq<char>,
    pub args: Tree,
    pub args_idl: Seq<char>,
    pub rets_idl: Result<Seq<char>, Seq<char>>,
    pub render_out: Option<OutView>,
    pub timestamp: Span,
    pub duration: Span,
}

impl View for Call {
    type V = CallView;

    open spec fn view(&self) -> CallView {
        CallView {
            method: self.method@,
            args: self.args@,
            args_idl: self.args_idl@,
            rets_idl: match self.rets_idl {
                Ok(s) => Ok(s@),
                Err(s) => Err(s@),
            },
            render_out: match self.render_out {
                Some(o) => Some(o@),
                None => None,
            },
            timestamp: self.timestamp,
            duration: self.duration,
        }
    }
}

/// What a `Repl` stands for.
pub struct ReplView {
    pub replica_url: Seq<char>,
    pub canister_id: Seq<char>,
    pub menu_type: Schema,
    pub display: Seq<(NameView, ElmView)>,
    pub history: Seq<CallView>,
}

impl View for Repl {
    type V = ReplView;

    open spec fn view(&self) -> ReplView {
        ReplView {
            replica_url: self.config.replica_url@,
            canister_id: self.config.canister_id@,
            menu_type: self.config.menu_type@,
            display: named_elms_model(self.display@),
            history: Seq::new(self.history@.len(), |i: int| self.history@[i]@),
        }
    }
}

/// What `name` is bound to among the first `n` cells, the last one first.
pub open spec fn bound_in(cells: Seq<(NameView, ElmView)>, name: NameView, n: nat) -> Option<ElmView>
    decreases n,
{
    if n == 0 || n > cells.len() {
        None
    } else if cells[n - 1].0 == name {
        Some(cells[n - 1].1)
    } else {
        bound_in(cells, name, (n - 1) as nat)
    }
}

/// The cell that is kept of a display redrawn with `named`: one of the
/// names on display or redrawn, with the element that it was bound to last.
pub open spec fn kept_cell(
    display: Seq<(NameView, ElmView)>,
    named: Seq<(NameView, ElmView)>,
    cell: (NameView, ElmView),
) -> bool {
    let all = display + named;
    bound_in(all, cell.0, all.len()) == Some(cell.1)
}

fn find_cell<'a>(cells: &'a Vec<(Name, Elm)>, name: &Name) -> (r: Option<&'a Elm>)
    ensures
        match bound_in(named_elms_model(cells@), name@, cells@.len() as nat) {
            Some(e) => r matches Some(x) && x@ == e,
            None => r is None,
        },
{
    let mut i: usize = cells.len();
    while i > 0
        invariant
            i <= cells.len(),
            bound_in(named_elms_model(cells@), name@, cells@.len() as nat) == bound_in(
                named_elms_model(cells@),
                name@,
                i as nat,
            ),
        decreases i,
    {
        if cells[i - 1].0.same(name) {
            return Some(&cells[i - 1].1);
        }
        i -= 1;
    }
    None
}

proof fn lemma_bound_in_append(
    a: Seq<(NameView, ElmView)>,
    b: Seq<(NameView, ElmView)>,
    name: NameView,
    n: nat,
)
    requires
        n <= b.len(),
    ensures
        bound_in(a + b, name, a.len() + n) == (match bound_in(b, name, n) {
            Some(e) => Some(e),
            None => bound_in(a, name, a.len()),
        }),
    decreases n,
{
    if n == 0 {
        lemma_bound_in_prefix(a, b, name, a.len());
    } else {
        assert((a + b)[a.len() + n - 1] == b[n - 1]);
        lemma_bound_in_append(a, b, name, (n - 1) as nat);
    }
}

proof fn lemma_bound_in_prefix(
    a: Seq<(NameView, ElmView)>,
    b: Seq<(NameView, ElmView)>,
    name: NameView,
    n: nat,
)
    requires
        n <= a.len(),
    ensures
        bound_in(a + b, name, n) == bound_in(a, name, n),
    decreases n,
{
    if n > 0 {
        assert((a + b)[n - 1] == a[n - 1]);
        lemma_bound_in_prefix(a, b, name, (n - 1) as nat);
    }
}

impl Repl {
    /// Takes what a call asked to be drawn into the display. Only `Redraw`
    /// changes the display: of all the cells, those on display and those
    /// redrawn, one is kept, with the element that its name was bound to
    /// last; which one is not determined. Where there is no cell at all the
    /// display is empty.
    pub fn update_display(&mut self, out: &Option<Out>)
        ensures
            final(self).config == old(self).config,
            final(self).history == old(self).history,
            match *out {
                Some(Out::Redraw(named)) => {
                    let display = named_elms_model(old(self).display@);
                    let named = named_elms_model(named@);
                    if display.len() + named.len() == 0 {
                        final(self).display@.len() == 0
                    } else {
                        final(self).display@.len() == 1 && kept_cell(
                            display,
                            named,
                            named_elms_model(final(self).display@)[0],
                        )
                    }
                },
                _ => final(self).display == old(self).display,
            },
    {
        match out {
            Some(Out::Redraw(named_elms)) => {
                let ghost display = named_elms_model(self.display@);
                let ghost named = named_elms_model(named_elms@);
                let name = if self.display.len() > 0 {
                    self.display[0].0.clone()
                } else if named_elms.len() > 0 {
                    named_elms[0].0.clone()
                } else {
                    self.display = Vec::new();
                    return ;
                };
                proof {
                    lemma_bound_in_append(display, named, name@, named.len());
                }
                let elm = match find_cell(named_elms, &name) {
                    Some(e) => e.clone(),
                    None => match find_cell(&self.display, &name) {
                        Some(e) => e.clone(),
                        None => {
                            // The name was taken from one of the two lists.
                            proof {
                                if display.len() > 0 {
                                    lemma_bound_finds(display, name@, 0, display.len());
                                } else {
                                    lemma_bound_finds(named, name@, 0, named.len());
                                }
                            }
                            return ;
                        },
                    },
                };
                let mut kept: Vec<(Name, Elm)> = Vec::new();
                kept.push((name, elm));
                self.display = kept;
            },
            _ => {},
        }
    }
}

/// A name that occurs among the first `n` cells is bound among them.
proof fn lemma_bound_finds(cells: Seq<(NameView, ElmView)>, name: NameView, i: int, n: nat)
    requires
        0 <= i < n <= cells.len(),
        cells[i].0 == name,
    ensures
        bound_in(cells, name, n) is Some,
    decreases n,
{
    if cells[n - 1].0 != name {
        lemma_bound_finds(cells, name, i, (n - 1) as nat);
    }
}

} // verus!
