//! Balance and activity of an HD wallet account, from its extended public key:
//! command-line settings, derivation of the receive and change addresses,
//! ordered collection of the indexing service's answers, totals and display rows.
use vstd::prelude::*;

pub mod config;
pub mod display;
pub mod fetch;
pub mod summary;
pub mod wallet;

verus! {

} // verus!
