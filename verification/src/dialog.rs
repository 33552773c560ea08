//! The file-choosing steps: where the chooser opens, and what its answer
//! means. The chooser itself is a window of the operating system.

use crate::launch::path_exists;
use vstd::prelude::*;
use vstd::string::*;

verus! {

/// The text of the parent of `path` as `std::path::Path::parent` finds it,
/// or `None` where the path ends in a root or prefix or is empty.
pub uninterp spec fn path_parent_name(path: Seq<char>) -> Option<Seq<char>>;

/// Calls `std::path::Path::parent` and turns the parent back into text with
/// `Path::to_str`. The contract claims only that the outcome is the one
/// `path_parent_name` names for the path; how `std` splits a path into
/// components is left unsaid.
#[verifier::external_body]
pub(crate) fn path_parent(path: &str) -> (r: Option<String>)
    ensures
        r is Some <==> path_parent_name(path@) is Some,
        r matches Some(p) ==> path_parent_name(path@) == Some(p@),
{
    match std::path::Path::new(path).parent() {
        Some(p) => match p.to_str() {
            Some(t) => Some(t.to_string()),
            None => None,
        },
        None => None,
    }
}

/// The text of an optional text.
pub open spec fn opt_view(o: Option<String>) -> Option<Seq<char>> {
    match o {
        Some(s) => Some(s@),
        None => None,
    }
}

/// Where the chooser opens for a path: the path's parent when the path
/// exists, `/` otherwise; `None` where an existing path has no parent.
pub open spec fn start_spec(path: Seq<char>, exists: bool) -> Option<Seq<char>> {
    if exists {
        path_parent_name(path)
    } else {
        Some("/"@)
    }
}

/// Where the chooser opens, given whether the path exists.
pub fn start_location(path: &str, exists: bool) -> (r: Option<String>)
    ensures
        opt_view(r) == start_spec(path@, exists),
{
    if exists {
        path_parent(path)
    } else {
        Some(String::from_str("/"))
    }
}

/// Where the chooser opens: looks the path up, then as `start_spec` says.
/// The file system's answer is not tied to the path by the contract, which
/// says only that the result is `start_spec`'s for some answer;
/// `start_location` is the exact step.
pub fn dialog_start(path: &str) -> (r: Option<String>)
    ensures
        exists|e: bool| opt_view(r) == start_spec(path@, e),
{
    let e = path_exists(path);
    start_location(path, e)
}

/// The code, text and path that the chooser's answer gives: the chosen
/// file, or, where nothing was chosen, code 1 and the place it opened at.
pub open spec fn pick_spec(start: Seq<char>, picked: Option<Seq<char>>) -> (u32, Seq<char>, Seq<char>) {
    match picked {
        Some(p) => (0, "got file"@, p),
        None => (1, "error getting directory -- possible cancel key hit"@, start),
    }
}

/// Reads the chooser's answer.
pub fn dialog_outcome(start: String, picked: Option<String>) -> (r: (u32, String, String))
    ensures
        (r.0, r.1@, r.2@) == pick_spec(start@, opt_view(picked)),
{
    match picked {
        Some(p) => (0, String::from_str("got file"), p),
        None => (1, String::from_str("error getting directory -- possible cancel key hit"), start),
    }
}

/// The path the chooser starts from: a path that does not exist gives way
/// to the other listing's path when that one exists.
pub open spec fn seed_spec(own: Seq<char>, own_exists: bool, other: Seq<char>, other_exists: bool) -> Seq<char> {
    if !own_exists && other_exists {
        other
    } else {
        own
    }
}

/// The path the chooser starts from, given which paths exist.
pub fn seed_choice(own: &str, own_exists: bool, other: &str, other_exists: bool) -> (r: String)
    ensures
        r@ == seed_spec(own@, own_exists, other@, other_exists),
{
    if !own_exists && other_exists {
        String::from_str(other)
    } else {
        String::from_str(own)
    }
}

/// The path the chooser starts from: looks up `own` first and, only when it
/// does not exist, `other`, then as `seed_spec` says. The file system's
/// answers are not tied to the paths by the contract, which says only that
/// the result is `seed_spec`'s for some pair of answers; `seed_choice` is the
/// exact step.
pub fn dialog_seed(own: &str, other: &str) -> (r: String)
    ensures
        exists|own_exists: bool, other_exists: bool|
            r@ == seed_spec(own@, own_exists, other@, other_exists),
{
    let own_exists = path_exists(own);
    let other_exists = if own_exists {
        false
    } else {
        path_exists(other)
    };
    seed_choice(own, own_exists, other, other_exists)
}

} // verus!
