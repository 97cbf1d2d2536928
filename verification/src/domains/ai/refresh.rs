//! Finding more resources for a node.
use vstd::prelude::*;

use crate::domains::ai::agent::{resource_of, ProposedNode, ProposedNodeView, ProposedResourceView};
use crate::domains::graph::models::{Resource, ResourceView};
use crate::error::Error;
use crate::text::{join, push_joined, push_str, texts};

verus! {

broadcast use vstd::string::group_string_axioms;

/// The instructions for finding more resources.
pub const LOAD_MORE_PROMPT: &'static str = r#"You are finding additional learning resources for a specific topic in a knowledge graph.

The learner wants MORE resources beyond what they already have. Search for NEW, different resources on this topic. Do NOT repeat any of the existing resources listed below.

Return your results as a JSON array with a single entry:
[
  {
    "title": "<topic title>",
    "description": "<topic description>",
    "movement": "FOUNDATION",
    "resources": [
      {
        "type": "youtube|article|guide|tutorial",
        "youtube_id": "optional",
        "url": "required",
        "title": "Resource title",
        "channel": "optional",
        "reason": "Why this resource is good for learning this concept"
      }
    ]
  }
]

Find 2-3 new resources. Prefer different formats than what's already there (if they had YouTube, try articles, and vice versa). Make sure resources actually exist."#;

/// How an existing resource is listed for the agent: `- title (type): url`.
pub open spec fn existing_line(r: ResourceView) -> Seq<char> {
    "- "@ + r.title + " ("@ + r.resource_type + "): "@ + (match r.url {
        Some(u) => u,
        None => "no url"@,
    })
}

/// The request for more resources on a node, listing those it has.
pub open spec fn load_more_text(title: Seq<char>, description: Seq<char>, existing: Seq<ResourceView>) -> Seq<
    char,
> {
    "Find more resources for the topic: \""@ + title + "\" — "@ + description
        + "\n\nExisting resources (DO NOT repeat these):\n"@ + join(
        existing.map_values(|r: ResourceView| existing_line(r)),
        "\n"@,
    ) + "\n\nFind new, different resources to add."@
}

/// The views of a list of resources.
pub open spec fn resource_views(rs: Seq<Resource>) -> Seq<ResourceView> {
    rs.map_values(|r: Resource| r@)
}

/// What the agent is asked when a learner wants more resources on a node.
pub fn load_more_prompt(title: &str, description: &str, existing: &[Resource]) -> (r: String)
    ensures
        r@ == load_more_text(title@, description@, resource_views(existing@)),
{
    let ghost rs = resource_views(existing@);
    let mut lines: Vec<String> = Vec::new();
    let mut i: usize = 0;
    while i < existing.len()
        invariant
            i <= existing@.len(),
            rs == resource_views(existing@),
            texts(lines@) =~= rs.take(i as int).map_values(|r: ResourceView| existing_line(r)),
        decreases existing.len() - i,
    {
        let res = &existing[i];
        let mut line = String::from_str("- ");
        push_str(&mut line, res.title.as_str());
        push_str(&mut line, " (");
        push_str(&mut line, res.resource_type.as_str());
        push_str(&mut line, "): ");
        match &res.url {
            Some(u) => push_str(&mut line, u.as_str()),
            None => push_str(&mut line, "no url"),
        }
        let ghost prev = texts(lines@);
        let ghost lv = line@;
        assert(lv == existing_line(rs[i as int]));
        lines.push(line);
        assert(texts(lines@) =~= prev.push(lv));
        assert(rs.take(i + 1) =~= rs.take(i as int).push(rs[i as int]));
        i = i + 1;
    }
    assert(rs.take(i as int) =~= rs);
    let mut out = String::from_str("Find more resources for the topic: \"");
    push_str(&mut out, title);
    push_str(&mut out, "\" — ");
    push_str(&mut out, description);
    push_str(&mut out, "\n\nExisting resources (DO NOT repeat these):\n");
    push_joined(&mut out, lines.as_slice(), "\n");
    push_str(&mut out, "\n\nFind new, different resources to add.");
    out
}

/// The resources of all proposals, in order.
pub open spec fn proposed_resources(ps: Seq<ProposedNodeView>) -> Seq<ProposedResourceView>
    decreases ps.len(),
{
    if ps.len() == 0 {
        Seq::empty()
    } else {
        proposed_resources(ps.drop_last()) + ps.last().resources
    }
}

/// The node's resources after a search: the existing ones followed by every resource of every
/// proposal; an error when the search found none.
pub fn merge_resources(existing: &[Resource], proposals: Vec<ProposedNode>) -> (r: Result<
    Vec<Resource>,
    Error,
>)
    ensures
        ({
            let found = proposed_resources(proposals.deep_view());
            if found.len() == 0 {
                r matches Err(Error::Ai(m)) && m@ == "AI did not find any new resources"@
            } else {
                r matches Ok(all) && all.deep_view() == resource_views(existing@) + found.map_values(
                    |p: ProposedResourceView| resource_of(p),
                )
            }
        }),
{
    let ghost pv = proposals.deep_view();
    let mut found: Vec<Resource> = Vec::new();
    let mut i: usize = 0;
    assert(pv.take(0) =~= Seq::<ProposedNodeView>::empty());
    while i < proposals.len()
        invariant
            i <= proposals@.len(),
            pv == proposals.deep_view(),
            found.deep_view() =~= proposed_resources(pv.take(i as int)).map_values(
                |p: ProposedResourceView| resource_of(p),
            ),
        decreases proposals.len() - i,
    {
        let node = &proposals[i];
        let ghost base = proposed_resources(pv.take(i as int));
        let ghost rs = pv[i as int].resources;
        assert(rs == node.resources.deep_view());
        let mut j: usize = 0;
        while j < node.resources.len()
            invariant
                j <= node.resources@.len(),
                rs == node.resources.deep_view(),
                found.deep_view() =~= (base + rs.take(j as int)).map_values(
                    |p: ProposedResourceView| resource_of(p),
                ),
            decreases node.resources.len() - j,
        {
            let ghost before = found.deep_view();
            let res = Resource::from_proposed(node.resources[j].duplicate());
            assert(res@ == resource_of(rs[j as int]));
            found.push(res);
            assert(found.deep_view() =~= before.push(resource_of(rs[j as int])));
            assert(base + rs.take(j + 1) =~= (base + rs.take(j as int)).push(rs[j as int]));
            j = j + 1;
        }
        assert(rs.take(j as int) =~= rs);
        assert(pv.take(i + 1).drop_last() =~= pv.take(i as int));
        assert(proposed_resources(pv.take(i + 1)) == base + rs);
        i = i + 1;
    }
    assert(pv.take(i as int) =~= pv);
    if found.len() == 0 {
        return Err(Error::Ai(String::from_str("AI did not find any new resources")));
    }
    let mut all: Vec<Resource> = Vec::new();
    let mut k: usize = 0;
    while k < existing.len()
        invariant
            k <= existing@.len(),
            all.deep_view() =~= resource_views(existing@.take(k as int)),
        decreases existing.len() - k,
    {
        let ghost before = all.deep_view();
        let copy = existing[k].duplicate();
        all.push(copy);
        assert(all.deep_view() =~= before.push(existing@[k as int]@));
        assert(existing@.take(k + 1) =~= existing@.take(k as int).push(existing@[k as int]));
        k = k + 1;
    }
    assert(existing@.take(k as int) =~= existing@);
    let ghost base_all = all.deep_view();
    let ghost added = found.deep_view();
    all.append(&mut found);
    assert(all.deep_view() =~= base_all + added);
    Ok(all)
}

} // verus!
