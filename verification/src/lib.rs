//! A minimal named-hook dispatcher: a registry of (name, callback) pairs in
//! registration order, and a dispatcher that invokes the first hook whose
//! name matches a requested name.

pub mod dispatch;
pub mod registry;

use vstd::prelude::*;

verus! {

/// An example hook handler that always succeeds.
pub fn hello_world() -> (r: Result<(), String>)
    ensures
        r == Ok::<(), String>(()),
{
    Ok(())
}

} // verus!
