use vstd::prelude::*;

pub mod expr;
pub mod repl;

verus! {

/// The program's command-line arguments; it takes none.
pub struct Args {}

} // verus!
