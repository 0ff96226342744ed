//! Hierarchical tray-menu synchronization engine.
//!
//! Flattens a Project -> EnvFile -> Category -> Group tree into a linear
//! menu description whose actionable entries carry collision-free string
//! tokens, and decodes an activated token back into the exact
//! (project id, env-file path, group id) triple.

use vstd::prelude::*;
use vstd::string::{StrSliceExecFns, StringExecFns};

pub mod builder;
pub mod codec;
pub mod export;
pub mod model;
pub mod persistence;
pub mod resolver;

verus! {

/// A friendly greeting for `name`.
pub fn greet(name: &str) -> (r: String)
    ensures
        r@ == "Hello, "@ + name@ + "! You've been greeted from Rust!"@,
{
    let mut s = String::from_str("Hello, ");
    s.append(name);
    s.append("! You've been greeted from Rust!");
    s
}

} // verus!
