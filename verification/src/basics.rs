use vstd::prelude::*;

verus! {

/// Greets the given name on a fresh line.
pub fn greeting(name: String) -> (r: String)
    ensures
        r@ == "\nHi there "@ + name@,
{
    let mut r = String::from_str("\nHi there ");
    r.append(name.as_str());
    r
}

/// Always five.
pub fn get_five() -> (r: i32)
    ensures
        r == 5,
{
    5
}

} // verus!
