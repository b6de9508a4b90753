use vstd::prelude::*;

verus! {

/// Hands a fresh string out, moving ownership to the caller.
pub fn gives_ownership() -> (r: String)
    ensures
        r@ == "hello"@,
{
    String::from_str("hello")
}

/// Takes a string and moves it straight back.
pub fn takes_and_gives_back(a_string: String) -> (r: String)
    ensures
        r@ == a_string@,
{
    a_string
}

/// Returns the string it was given together with a second value.
pub fn multiple_returns(s: String) -> (r: (String, i32))
    ensures
        r.0@ == s@,
        r.1 == 42,
{
    (s, 42)
}

/// Appends to a borrowed string and hands the borrow back.
pub fn pass_ref(s: &mut String) -> (r: &mut String)
    ensures
        (*r)@ == old(s)@ + " mate!"@,
        *final(s) == *final(r),
{
    s.append(" mate!");
    s
}

} // verus!
