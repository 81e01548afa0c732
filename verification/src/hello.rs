//! A minimal greeting, kept as the crate's smallest exported function.

use vstd::prelude::*;

verus! {

/// Returns the fixed greeting of this library.
pub fn hello_string() -> (s: String)
    ensures
        s@ == "Hello, library world!"@,
{
    String::from_str("Hello, library world!")
}

} // verus!
