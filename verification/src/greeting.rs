//! The hello-world variant's only content: a fixed greeting.

use vstd::prelude::*;
use vstd::string::StringExecFns;

verus! {

/// The message the root route returns.
pub fn hello_message() -> (r: String)
    ensures
        r@ == "Hello, World!"@,
{
    String::from_str("Hello, World!")
}

} // verus!
