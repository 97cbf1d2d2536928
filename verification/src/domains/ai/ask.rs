//! Questions a learner asks about a node.
use vstd::prelude::*;

use crate::domains::graph::models::{GraphNode, ResourceView};
use crate::text::{join, push_joined, push_str, texts};

verus! {

broadcast use vstd::string::group_string_axioms;

/// How a resource is listed for the model: `type: title`.
pub open spec fn resource_line(r: ResourceView) -> Seq<char> {
    r.resource_type + ": "@ + r.title
}

/// The learning path as the model reads it: the titles joined by arrows, or a note that the
/// learner just started.
pub open spec fn path_text(path: Seq<Seq<char>>) -> Seq<char> {
    if path.len() == 0 {
        "Just started"@
    } else {
        join(path, " → "@)
    }
}

/// What the model is told about the node, the path and the question.
pub open spec fn question_context(
    title: Seq<char>,
    description: Seq<char>,
    resources: Seq<ResourceView>,
    path: Seq<Seq<char>>,
    question: Seq<char>,
) -> Seq<char> {
    "Current node: "@ + title + " — "@ + description + "\nResources: "@ + join(
        resources.map_values(|r: ResourceView| resource_line(r)),
        ", "@,
    ) + "\nLearning path: "@ + path_text(path) + "\n\nLearner's question: "@ + question
}

/// The text sent to the model with a learner's question about `node`, who came along `path`.
pub fn ask_context(node: &GraphNode, path: &[String], question: &str) -> (r: String)
    ensures
        r@ == question_context(
            node.title@,
            node.description@,
            node@.resources,
            texts(path@),
            question@,
        ),
{
    let mut lines: Vec<String> = Vec::new();
    let mut i: usize = 0;
    let ghost rs = node@.resources;
    while i < node.resources.len()
        invariant
            i <= node.resources@.len(),
            rs == node@.resources,
            rs.len() == node.resources@.len(),
            texts(lines@) =~= rs.take(i as int).map_values(|r: ResourceView| resource_line(r)),
        decreases node.resources.len() - i,
    {
        let res = &node.resources[i];
        assert(rs[i as int] == res@);
        let mut line = String::new();
        push_str(&mut line, res.resource_type.as_str());
        push_str(&mut line, ": ");
        push_str(&mut line, res.title.as_str());
        let ghost prev = texts(lines@);
        let ghost lv = line@;
        assert(lv == resource_line(rs[i as int]));
        lines.push(line);
        assert(texts(lines@) =~= prev.push(lv));
        assert(rs.take(i + 1) =~= rs.take(i as int).push(rs[i as int]));
        assert(texts(lines@) =~= rs.take(i + 1).map_values(|r: ResourceView| resource_line(r)));
        i = i + 1;
    }
    assert(rs.take(i as int) =~= rs);
    let mut out = String::from_str("Current node: ");
    push_str(&mut out, node.title.as_str());
    push_str(&mut out, " — ");
    push_str(&mut out, node.description.as_str());
    push_str(&mut out, "\nResources: ");
    push_joined(&mut out, lines.as_slice(), ", ");
    push_str(&mut out, "\nLearning path: ");
    if path.len() == 0 {
        push_str(&mut out, "Just started");
    } else {
        push_joined(&mut out, path, " → ");
    }
    push_str(&mut out, "\n\nLearner's question: ");
    push_str(&mut out, question);
    out
}

} // verus!
