//! Short ways to make names.

use crate::types::lang::{Atom, AtomView, Name, NameView};
use vstd::prelude::*;

verus! {

pub fn name_of_str(s: &str) -> (n: Name)
    ensures
        n@ == NameView::Atom(AtomView::String(s@)),
{
    Name::Atom(Atom::String(s.to_owned()))
}

pub fn name_of_usize(u: usize) -> (n: Name)
    ensures
        n@ == NameView::Atom(AtomView::Usize(u)),
{
    Name::Atom(Atom::Usize(u))
}

pub fn name_of_string(s: String) -> (n: Name)
    ensures
        n@ == NameView::Atom(AtomView::String(s@)),
{
    Name::Atom(Atom::String(s))
}

} // verus!
