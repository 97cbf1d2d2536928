//! Growing the graph from a node: when to ask the agent, what to ask it, and where its
//! proposals land.
use vstd::prelude::*;

use crate::domains::ai::prompts::{
    EXPANSION_SUGGESTIONS_PROMPT, INVESTIGATION_SYSTEM_PROMPT, STEERED_INVESTIGATION_PROMPT,
};
use crate::domains::graph::models::{movement_of_name, Movement, Node};
use crate::ids::{uuid_string, uuid_text};
use crate::text::{
    decimal, join, push_decimal, push_joined, push_signed_decimal, push_str, signed_decimal, texts,
};

verus! {

broadcast use vstd::string::group_string_axioms;

/// How many outgoing edges a node needs before the agent is no longer asked for more.
pub const ENOUGH_EDGES: i64 = 3;

/// Whether the agent investigates: always when the learner steers, else while the node has
/// fewer than three outgoing edges.
pub fn needs_investigation(steered: bool, existing_edges: i64) -> (r: bool)
    ensures
        r == (steered || existing_edges < ENOUGH_EDGES),
{
    steered || existing_edges < ENOUGH_EDGES
}

/// The depth of a node proposed from a node at depth `from_depth`.
pub open spec fn depth_after(m: Movement, from_depth: int) -> int {
    match m {
        Movement::Deeper => from_depth + 1,
        Movement::Foundation => if from_depth - 1 > 1 {
            from_depth - 1
        } else {
            1
        },
        _ => from_depth,
    }
}

/// The depth of a node proposed along `movement` from a node at `from_depth`: one deeper, one
/// shallower (but at least 1) for a foundation, the same otherwise.
pub fn proposal_depth(movement: Movement, from_depth: i32) -> (r: i32)
    requires
        movement == Movement::Deeper ==> from_depth < i32::MAX,
        movement == Movement::Foundation ==> from_depth > i32::MIN,
    ensures
        r == depth_after(movement, from_depth as int),
{
    match movement {
        Movement::Deeper => from_depth + 1,
        Movement::Foundation => if from_depth - 1 > 1 {
            from_depth - 1
        } else {
            1
        },
        Movement::Broader | Movement::Practice | Movement::Inspire => from_depth,
    }
}

/// The movement a proposal names, a foundation when the name is unknown.
pub fn proposal_movement(name: &str) -> (r: Movement)
    ensures
        r == (match movement_of_name(name@) {
            Some(m) => m,
            None => Movement::Foundation,
        }),
{
    match Movement::from_relationship_type(name) {
        Some(m) => m,
        None => Movement::Foundation,
    }
}

/// The depth of a stored node, 1 when the node is not found.
pub open spec fn depth_or_one(node: Option<Node>) -> i32 {
    match node {
        Some(n) => n.depth,
        None => 1,
    }
}

/// The description of a stored node, empty when the node is not found.
pub open spec fn description_or_empty(node: Option<Node>) -> Seq<char> {
    match node {
        Some(n) => n.description@,
        None => Seq::empty(),
    }
}

/// What the agent is asked for proposals from the node titled `title`.
pub open spec fn investigation_prompt_text(
    path_context: Seq<char>,
    title: Seq<char>,
    depth: i32,
    steering: Option<Seq<char>>,
) -> Seq<char> {
    match steering {
        Some(direction) => path_context + "\n\nCurrent node: \""@ + title + "\" at depth "@
            + signed_decimal(depth as int) + ".\nThe learner wants to explore: \""@ + direction
            + "\"\nGenerate 3 proposals aligned with this direction."@,
        None => path_context + "\n\nCurrent node: \""@ + title + "\" at depth "@ + signed_decimal(
            depth as int,
        ) + ".\nGenerate 3 proposals. The DEEPER proposal must be noticeably more advanced than depth "@
            + signed_decimal(depth as int) + "."@,
    }
}

/// The instructions and the request for an investigation from `node` (the stored node titled
/// `title`, if found): a steered investigation follows the learner's direction.
pub fn investigation_prompts(path_context: &str, title: &str, node: &Option<Node>, steering: Option<
    &str,
>) -> (r: (&'static str, String))
    ensures
        r.0@ == (match steering {
            Some(_) => STEERED_INVESTIGATION_PROMPT@,
            None => INVESTIGATION_SYSTEM_PROMPT@,
        }),
        r.1@ == investigation_prompt_text(
            path_context@,
            title@,
            depth_or_one(*node),
            match steering {
                Some(d) => Some(d@),
                None => None,
            },
        ),
{
    let depth: i32 = match node {
        Some(n) => n.depth,
        None => 1,
    };
    let mut p = String::new();
    push_str(&mut p, path_context);
    push_str(&mut p, "\n\nCurrent node: \"");
    push_str(&mut p, title);
    push_str(&mut p, "\" at depth ");
    push_signed_decimal(&mut p, depth as i64);
    match steering {
        Some(direction) => {
            push_str(&mut p, ".\nThe learner wants to explore: \"");
            push_str(&mut p, direction);
            push_str(&mut p, "\"\nGenerate 3 proposals aligned with this direction.");
            (STEERED_INVESTIGATION_PROMPT, p)
        },
        None => {
            push_str(
                &mut p,
                ".\nGenerate 3 proposals. The DEEPER proposal must be noticeably more advanced than depth ",
            );
            push_signed_decimal(&mut p, depth as i64);
            push_str(&mut p, ".");
            (INVESTIGATION_SYSTEM_PROMPT, p)
        },
    }
}

/// What the model is asked for expansion suggestions on the node titled `title`.
pub open spec fn suggestion_prompt_text(
    path_context: Seq<char>,
    title: Seq<char>,
    description: Seq<char>,
    depth: i32,
) -> Seq<char> {
    path_context + "\n\nCurrent node: \""@ + title + "\" — "@ + description + "\nDepth: "@
        + signed_decimal(depth as int) + "\n\nGenerate 3 expansion direction suggestions."@
}

/// The instructions and the request for three expansion directions from `node` (the stored
/// node titled `title`, if found).
pub fn suggestion_prompts(path_context: &str, title: &str, node: &Option<Node>) -> (r: (
    &'static str,
    String,
))
    ensures
        r.0@ == EXPANSION_SUGGESTIONS_PROMPT@,
        r.1@ == suggestion_prompt_text(
            path_context@,
            title@,
            description_or_empty(*node),
            depth_or_one(*node),
        ),
{
    let mut p = String::new();
    push_str(&mut p, path_context);
    push_str(&mut p, "\n\nCurrent node: \"");
    push_str(&mut p, title);
    push_str(&mut p, "\" — ");
    let depth: i32 = match node {
        Some(n) => {
            push_str(&mut p, n.description.as_str());
            n.depth
        },
        None => 1,
    };
    push_str(&mut p, "\nDepth: ");
    push_signed_decimal(&mut p, depth as i64);
    push_str(&mut p, "\n\nGenerate 3 expansion direction suggestions.");
    (EXPANSION_SUGGESTIONS_PROMPT, p)
}

// ─── The learner's path ────────────────────────────────────────────

/// One step of a learner's traversal history: the node moved to (its title, where the node is
/// still stored) and the movement taken.
#[derive(Debug, Clone)]
pub struct PathStep {
    pub node_id: u128,
    pub title: Option<String>,
    pub movement: Option<String>,
}

/// How a step is named: its node's title, or else its node's id.
pub open spec fn step_name(s: PathStep) -> Seq<char> {
    match s.title {
        Some(t) => t@,
        None => uuid_text(s.node_id),
    }
}

/// How a step's movement is named.
pub open spec fn step_movement(s: PathStep) -> Seq<char> {
    match s.movement {
        Some(m) => m@,
        None => "TRAVERSED"@,
    }
}

/// The line of the `i`-th step (0-based): numbered `i + 2`, at depth `i + 1`.
pub open spec fn step_line(i: int, s: PathStep) -> Seq<char> {
    decimal((i + 2) as nat) + ". \""@ + step_name(s) + "\" ("@ + step_movement(s) + ", depth "@
        + decimal((i + 1) as nat) + ")"@
}

/// The line of the topic root.
pub open spec fn root_line(root_name: Option<String>) -> Seq<char> {
    "1. \""@ + (match root_name {
        Some(n) => n@,
        None => "Topic"@,
    }) + "\" (ROOT)"@
}

/// The learner's path as told to the model: the root, then each step in order.
pub open spec fn path_context_text(root_name: Option<String>, steps: Seq<PathStep>) -> Seq<char> {
    "The learner's path (earliest → most recent):\n"@ + join(
        seq![root_line(root_name)] + Seq::new(steps.len(), |i: int| step_line(i, steps[i])),
        "\n"@,
    )
}

/// The learner's path through a topic, for the model: the topic root (named `Topic` when it
/// is not found) and then each step of the history, numbered, with its movement and depth.
pub fn path_context(root_name: Option<String>, steps: &Vec<PathStep>) -> (r: String)
    requires
        steps@.len() + 2 <= u64::MAX,
    ensures
        r@ == path_context_text(root_name, steps@),
{
    let ghost rn = root_name;
    let mut root = String::from_str("1. \"");
    match &root_name {
        Some(n) => push_str(&mut root, n.as_str()),
        None => push_str(&mut root, "Topic"),
    }
    push_str(&mut root, "\" (ROOT)");
    let mut lines: Vec<String> = Vec::new();
    lines.push(root);
    let ghost want = seq![root_line(rn)] + Seq::new(
        steps@.len(),
        |i: int| step_line(i, steps@[i]),
    );
    let mut i: usize = 0;
    while i < steps.len()
        invariant
            i <= steps@.len(),
            steps@.len() + 2 <= u64::MAX,
            want == seq![root_line(rn)] + Seq::new(steps@.len(), |i: int| step_line(i, steps@[i])),
            texts(lines@) =~= want.take(i + 1),
        decreases steps.len() - i,
    {
        let step = &steps[i];
        let mut line = String::new();
        push_decimal(&mut line, i as u64 + 2);
        push_str(&mut line, ". \"");
        match &step.title {
            Some(t) => push_str(&mut line, t.as_str()),
            None => {
                let id = uuid_string(step.node_id);
                push_str(&mut line, id.as_str());
            },
        }
        push_str(&mut line, "\" (");
        match &step.movement {
            Some(m) => push_str(&mut line, m.as_str()),
            None => push_str(&mut line, "TRAVERSED"),
        }
        push_str(&mut line, ", depth ");
        push_decimal(&mut line, i as u64 + 1);
        push_str(&mut line, ")");
        let ghost prev = texts(lines@);
        let ghost lv = line@;
        assert(lv == step_line(i as int, steps@[i as int]));
        lines.push(line);
        assert(texts(lines@) =~= prev.push(lv));
        assert(want[i + 1] == lv);
        assert(want.take(i + 2) =~= want.take(i + 1).push(want[i + 1]));
        i = i + 1;
    }
    assert(want.take(i + 1) =~= want);
    let mut out = String::from_str("The learner's path (earliest → most recent):\n");
    push_joined(&mut out, lines.as_slice(), "\n");
    out
}

} // verus!
