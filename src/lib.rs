//! Clones a template tree while rewriting one identifier, in every case
//! convention and in singular and plural, into another one.
use vstd::prelude::*;

pub mod detect;
pub mod naming;
pub mod replace;
pub mod text;
pub mod walk;

verus! {

} // verus!
