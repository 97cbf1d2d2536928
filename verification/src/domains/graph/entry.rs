//! Entering a topic from a learner's stated interest.
use vstd::prelude::*;

use crate::text::push_str;

verus! {

broadcast use vstd::string::group_string_axioms;

/// The description a new topic root gets for the interest it was made for.
pub fn topic_description(interest: &str) -> (r: String)
    ensures
        r@ == "Topic graph for: "@ + interest@,
{
    let mut d = String::from_str("Topic graph for: ");
    push_str(&mut d, interest);
    d
}

} // verus!
