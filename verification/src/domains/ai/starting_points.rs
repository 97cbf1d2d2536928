//! The first nodes of a new topic.
use vstd::prelude::*;

use crate::domains::ai::prompts::{INVESTIGATION_SYSTEM_PROMPT, STARTING_POINTS_PROMPT};
use crate::text::push_str;

verus! {

broadcast use vstd::string::group_string_axioms;

/// What the agent is asked for the starting points of `topic_name`.
pub open spec fn starting_points_text(topic_name: Seq<char>) -> Seq<char> {
    STARTING_POINTS_PROMPT@ + "\n\nThe topic is: \""@ + topic_name
        + "\"\n\nGenerate 3-5 starting points. Each should be a fundamentally different entry angle into this subject."@
}

/// The instructions and the request for the starting points of a new topic.
pub fn starting_points_prompts(topic_name: &str) -> (r: (&'static str, String))
    ensures
        r.0@ == INVESTIGATION_SYSTEM_PROMPT@,
        r.1@ == starting_points_text(topic_name@),
{
    let mut p = String::from_str(STARTING_POINTS_PROMPT);
    push_str(&mut p, "\n\nThe topic is: \"");
    push_str(&mut p, topic_name);
    push_str(
        &mut p,
        "\"\n\nGenerate 3-5 starting points. Each should be a fundamentally different entry angle into this subject.",
    );
    (INVESTIGATION_SYSTEM_PROMPT, p)
}

} // verus!
