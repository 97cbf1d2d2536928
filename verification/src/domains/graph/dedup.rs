//! Recognising a proposed node that the topic graph already holds.
use vstd::prelude::*;

use crate::text::{push_str, string_push};

verus! {

broadcast use vstd::string::group_string_axioms;

/// The text embedded to compare a node with others: its title, a space, its description.
pub fn embedding_text(title: &str, description: &str) -> (r: String)
    ensures
        r@ == title@ + seq![' '] + description@,
{
    let mut t = String::new();
    push_str(&mut t, title);
    string_push(&mut t, ' ');
    push_str(&mut t, description);
    t
}

} // verus!
