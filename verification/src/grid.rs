//! Grids of media: so far only the names of the data.

use vstd::prelude::*;

verus! {

#[derive(Clone, Copy, Debug, PartialEq, Eq, Structural, Hash)]
pub struct Grid {

}

#[derive(Clone, Copy, Debug, PartialEq, Eq, Structural, Hash)]
pub struct Editor {

}

} // verus!
