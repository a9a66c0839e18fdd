//! Owned strings, references and borrowing: small functions whose contracts
//! state exactly what each borrow or owned value becomes.

use vstd::prelude::*;
use vstd::string::{StrSliceExecFns, StringExecFns};

verus! {

/// Appends ", world" to the borrowed string in place.
pub fn change(some_string: &mut String)
    ensures
        final(some_string)@ == old(some_string)@ + ", world"@,
{
    some_string.append(", world");
}

/// The length of the borrowed string, in characters.
pub fn calculate_length(s: &String) -> (len: usize)
    ensures
        len == s@.len(),
{
    s.as_str().unicode_len()
}

/// Returns a freshly owned greeting. Handing the string out by value is what
/// lets the caller keep it: a reference into this function's locals could
/// not outlive the call.
pub fn dangle() -> (s: String)
    ensures
        s@ == "hello"@,
{
    "hello".to_owned()
}

/// Returns the same greeting, again as an owned value.
pub fn no_dangle() -> (s: String)
    ensures
        s@ == "hello"@,
{
    "hello".to_owned()
}

/// Greets nobody: the function does nothing at all.
pub fn hello_world() {
}

} // verus!
