use vstd::prelude::*;

verus! {

/// Compares two string slices character by character.
pub fn str_eq(a: &str, b: &str) -> (res: bool)
    ensures
        res == (a@ == b@),
{
    let x: String = a.to_owned();
    let y: String = b.to_owned();
    x == y
}


/// Joins two pieces of text into a new string.
pub fn cat(a: &str, b: &str) -> (res: String)
    ensures
        res@ == a@ + b@,
{
    let s: String = String::from_str(a);
    s.concat(b)
}

/// Joins three pieces of text into a new string.
pub fn cat3(a: &str, b: &str, c: &str) -> (res: String)
    ensures
        res@ == a@ + b@ + c@,
{
    let s: String = cat(a, b);
    s.concat(c)
}

/// Copies a piece of text into a new string.
pub fn owned(a: &str) -> (res: String)
    ensures
        res@ == a@,
{
    String::from_str(a)
}

} // verus!
