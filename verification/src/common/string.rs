//! String utilities, and the copying helpers the rest of the library
//! relies on.
use vstd::prelude::*;

pub use crate::text::{remove_whitespace_str, remove_whitespace_string};

verus! {

/// The common prefix of several strings. The service has never filled
/// this in: it answers the empty string for every input.
pub fn common_prefix(strs: Vec<&str>) -> (r: String)
    ensures
        r@ == Seq::<char>::empty(),
{
    String::new()
}

/// True when no string in `v` has any character (also for an empty `v`).
pub open spec fn all_empty(v: Seq<&str>) -> bool {
    forall|i: int| 0 <= i < v.len() ==> (#[trigger] v[i])@.len() == 0
}

/// Whether every string of the list is empty.
pub fn is_empty_string_vec(v: &Vec<&str>) -> (r: bool)
    ensures
        r == all_empty(v@),
{
    let mut i: usize = 0;
    while i < v.len()
        invariant
            i <= v@.len(),
            forall|k: int| 0 <= k < i ==> (#[trigger] v@[k])@.len() == 0,
        decreases v.len() - i,
    {
        if v[i].unicode_len() != 0 {
            return false;
        }
        i = i + 1;
    }
    true
}

/// An equal copy of a list of strings.
pub fn clone_strings(v: &Vec<String>) -> (r: Vec<String>)
    ensures
        r@ == v@,
{
    let mut r: Vec<String> = Vec::new();
    let mut i: usize = 0;
    while i < v.len()
        invariant
            i <= v@.len(),
            r@ == v@.take(i as int),
        decreases v.len() - i,
    {
        r.push(v[i].clone());
        i = i + 1;
        assert(r@ =~= v@.take(i as int));
    }
    assert(v@.take(v@.len() as int) =~= v@);
    r
}

/// An equal copy of an optional string.
pub fn clone_opt_string(v: &Option<String>) -> (r: Option<String>)
    ensures
        r == *v,
{
    match v {
        Some(s) => Some(s.clone()),
        None => None,
    }
}

/// `s.as_deref().unwrap_or("")` as an owned string.
pub open spec fn opt_or_empty(v: Option<String>) -> Seq<char> {
    match v {
        Some(s) => s@,
        None => Seq::empty(),
    }
}

/// `s.as_deref().unwrap_or("").to_string()`.
pub fn opt_string_or_empty(v: &Option<String>) -> (r: String)
    ensures
        r@ == opt_or_empty(*v),
{
    match v {
        Some(s) => s.clone(),
        None => String::new(),
    }
}

} // verus!
