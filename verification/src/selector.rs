//! Choosing the user to start from among the matches of a search.

use crate::user::User;
use vstd::prelude::*;

verus! {

/// The match that stands at `index`, counting from 1. An index of 0 or past
/// the end of the list chooses nobody.
pub fn select(matches: &Vec<User>, index: usize) -> (r: Option<&User>)
    ensures
        r == if 1 <= index <= matches.len() {
            Some(&matches[index - 1])
        } else {
            None
        },
{
    if index > 0 && index <= matches.len() {
        Some(&matches[index - 1])
    } else {
        None
    }
}

} // verus!
