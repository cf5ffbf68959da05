//! Small helpers on strings and on vectors of identifiers.
use vstd::prelude::*;
use crate::ident::Uri;

verus! {

/// The texts of a sequence of URIs.
pub open spec fn uri_views(uris: Seq<Uri>) -> Seq<Seq<char>> {
    Seq::new(uris.len(), |i: int| uris[i]@)
}

/// The texts of a sequence of strings.
pub open spec fn string_views(strings: Seq<String>) -> Seq<Seq<char>> {
    Seq::new(strings.len(), |i: int| strings[i]@)
}

/// Whether `a` reads as `b`.
pub fn str_is(a: &str, b: &str) -> (r: bool)
    ensures
        r == (a@ == b@),
{
    let left = String::from_str(a);
    let right = String::from_str(b);
    left == right
}

/// A copy of `uris`.
pub fn clone_uris(uris: &Vec<Uri>) -> (r: Vec<Uri>)
    ensures
        uri_views(r@) == uri_views(uris@),
{
    let mut out: Vec<Uri> = Vec::new();
    let mut i: usize = 0;
    while i < uris.len()
        invariant
            i <= uris@.len(),
            out@.len() == i,
            forall|j: int| 0 <= j < i ==> out@[j]@ == uris@[j]@,
        decreases uris@.len() - i,
    {
        out.push(uris[i].clone());
        i += 1;
    }
    assert(uri_views(out@) =~= uri_views(uris@));
    out
}

/// A copy of `strings`.
pub fn clone_strings(strings: &Vec<String>) -> (r: Vec<String>)
    ensures
        string_views(r@) == string_views(strings@),
{
    let mut out: Vec<String> = Vec::new();
    let mut i: usize = 0;
    while i < strings.len()
        invariant
            i <= strings@.len(),
            out@.len() == i,
            forall|j: int| 0 <= j < i ==> out@[j]@ == strings@[j]@,
        decreases strings@.len() - i,
    {
        out.push(strings[i].clone());
        i += 1;
    }
    assert(string_views(out@) =~= string_views(strings@));
    out
}

} // verus!
