//! A precondition contract rewriting engine.
//!
//! Authors attach preconditions to risky function declarations; every caller
//! must restate exactly the same preconditions, with a justification, before
//! the call is accepted. The engine canonicalizes and compares precondition
//! sets, encodes them as hidden parameters and arguments whose structural
//! equality coincides with set equality, rewrites call sites (resolving
//! forwarding of the contract lookup when requested), and expands mirror
//! modules that attach contracts to externally defined functions.

pub mod annot;
pub mod attrs;
pub mod call;
pub mod declaration;
pub mod diag;
pub mod encode;
pub mod expr;
pub mod forward;
pub mod kind;
pub mod list;
pub mod mirror;
pub mod parse;
pub mod precondition;
pub mod rewrite;
pub mod scan;
pub mod text;

use vstd::prelude::*;

use crate::encode::{encoding_of, HiddenArgument};
use crate::precondition::Clause;

verus! {

/// The canonical example of a rewritten contract-bearing declaration: a
/// function declared with the single custom precondition `must be bar`.
/// After rewriting, its signature carries the hidden parameter for that
/// set, so a call is accepted exactly when it hands over the hidden
/// argument encoding the same precondition set — which is the check the
/// host compiler performs on the engine's behalf.
pub fn foo(hidden: &HiddenArgument)
    requires
        hidden@ == encoding_of(seq![Clause::Custom { text: "must be bar"@ }]),
{
}

} // verus!
