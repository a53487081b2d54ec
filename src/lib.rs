//! A node-based function editor's core: nodes with ordered, id-keyed input and output
//! ports, links made by a two-click protocol, a per-cycle sweep that prunes what no longer
//! resolves, and a bridge that runs a node's script against its input values.
use vstd::prelude::*;

pub mod value;
pub mod registry;
pub mod widget;
pub mod script;
pub mod constant;
pub mod naming;
pub mod graph;
pub mod flow;
pub mod laws;

verus! {

/// The sum of two integers, for a host that only needs a plain exported function.
pub fn add(a: i32, b: i32) -> (r: i32)
    requires
        i32::MIN <= a + b <= i32::MAX,
    ensures
        r == a + b,
{
    a + b
}

} // verus!
