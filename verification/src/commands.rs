use vstd::prelude::*;

verus! {

/// The greeting the settings window shows for `name`.
pub fn greet(name: &str) -> (g: String)
    ensures
        g@ == "Hello, "@ + name@ + "! You've been greeted from Rust!"@,
{
    let hello = String::from_str("Hello, ");
    let with_name = hello.concat(name);
    with_name.concat("! You've been greeted from Rust!")
}

} // verus!
