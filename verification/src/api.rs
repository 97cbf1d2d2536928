//! What the GraphQL endpoint decides: who is signed in, and what the resolvers pick out of
//! an assembled graph.
use vstd::prelude::*;

use crate::domains::graph::models::{GraphNode, GraphNodeView, NodeState, TopicGraph};
use crate::error::Error;
use crate::ids::{parse_uuid, uuid_parse};
use crate::text::{
    chars_of, split_chars, split_on, starts_with, string_of_range, trim, trim_bounds, texts,
};

verus! {

broadcast use vstd::string::group_string_axioms;

/// The cookie that carries the session token.
pub const TOKEN_COOKIE: &'static str = "token";

/// The session token a request carried, if any.
#[derive(Clone, Debug)]
pub struct AuthToken(pub Option<String>);

/// The token among the cookies `pieces` (each trimmed): the value of the first `token=` cookie.
pub open spec fn token_among(pieces: Seq<Seq<char>>) -> Option<Seq<char>>
    decreases pieces.len(),
{
    if pieces.len() == 0 {
        None
    } else if starts_with(trim(pieces[0]), "token="@) {
        Some(trim(pieces[0]).skip(6))
    } else {
        token_among(pieces.drop_first())
    }
}

/// The token of a `Cookie` header: the value of its first `token` cookie.
pub open spec fn header_token(header: Option<Seq<char>>) -> Option<Seq<char>> {
    match header {
        Some(h) => token_among(split_on(h, ';')),
        None => None,
    }
}

/// Reads the session token out of the request's `Cookie` header.
pub fn extract_token_from_cookies(cookie_header: Option<&str>) -> (r: AuthToken)
    ensures
        r.0.deep_view() == header_token(
            match cookie_header {
                Some(h) => Some(h@),
                None => None,
            },
        ),
{
    let header = match cookie_header {
        Some(h) => h,
        None => return AuthToken(None),
    };
    let pieces = split_chars(&chars_of(header), ';');
    let ghost ps = split_on(header@, ';');
    let mut i: usize = 0;
    assert(ps.skip(0) =~= ps);
    while i < pieces.len()
        invariant
            i <= pieces@.len(),
            pieces.deep_view() == ps,
            ps.len() == pieces@.len(),
            ps == split_on(header@, ';'),
            cookie_header == Some(header),
            token_among(ps) == token_among(ps.skip(i as int)),
        decreases pieces.len() - i,
    {
        proof {
            reveal_strlit("token=");
        }
        let piece = &pieces[i];
        assert(piece@ =~= ps[i as int]);
        assert(ps.skip(i as int)[0] == ps[i as int]);
        assert(ps.skip(i as int).drop_first() =~= ps.skip(i + 1));
        let (a, b) = trim_bounds(piece, 0, piece.len());
        assert(piece@.subrange(0, piece@.len() as int) =~= piece@);
        let ghost t = piece@.subrange(a as int, b as int);
        if b - a >= 6 && piece[a] == 't' && piece[a + 1] == 'o' && piece[a + 2] == 'k'
            && piece[a + 3] == 'e' && piece[a + 4] == 'n' && piece[a + 5] == '=' {
            assert(t.take(6) =~= "token="@);
            let value = string_of_range(piece, a + 6, b);
            assert(value@ =~= t.skip(6));
            assert(t == trim(ps[i as int]));
            assert(starts_with(trim(ps.skip(i as int)[0]), "token="@));
            assert(token_among(ps.skip(i as int)) == Some(t.skip(6)));
            return AuthToken(Some(value));
        }
        assert(!starts_with(t, "token="@)) by {
            if starts_with(t, "token="@) {
                assert(t.take(6)[0] == 't');
                assert(t.take(6)[1] == 'o');
                assert(t.take(6)[2] == 'k');
                assert(t.take(6)[3] == 'e');
                assert(t.take(6)[4] == 'n');
                assert(t.take(6)[5] == '=');
            }
        }
        i = i + 1;
    }
    assert(ps.skip(i as int) =~= Seq::<Seq<char>>::empty());
    AuthToken(None)
}

/// The answer to a sign-in request.
#[derive(Debug, Clone)]
pub struct AuthResult {
    pub success: bool,
}

/// The model's answer to a learner's question.
#[derive(Debug, Clone)]
pub struct AiResponse {
    pub answer: String,
}

/// The queries of the endpoint.
pub struct QueryRoot;

/// The mutations of the endpoint.
pub struct MutationRoot;

/// The titles of the nodes the learner has been on, the current one included, in graph order.
pub open spec fn visited_titles_of(nodes: Seq<GraphNodeView>) -> Seq<Seq<char>>
    decreases nodes.len(),
{
    if nodes.len() == 0 {
        Seq::empty()
    } else {
        let rest = visited_titles_of(nodes.drop_last());
        let n = nodes.last();
        if n.state == NodeState::Visited || n.state == NodeState::Current {
            rest.push(n.title)
        } else {
            rest
        }
    }
}

/// The views of a list of graph nodes.
pub open spec fn node_views(nodes: Seq<GraphNode>) -> Seq<GraphNodeView> {
    nodes.map_values(|n: GraphNode| n@)
}

/// The first node of `nodes` with id `id`.
pub open spec fn first_with_id(nodes: Seq<GraphNodeView>, id: u128) -> Option<int>
    decreases nodes.len(),
{
    if nodes.len() == 0 {
        None
    } else {
        match first_with_id(nodes.drop_last(), id) {
            Some(i) => Some(i),
            None => if nodes.last().id == id {
                Some(nodes.len() - 1)
            } else {
                None
            },
        }
    }
}

impl MutationRoot {
    /// The position to create when a learner enters an existing topic: the topic root, unless
    /// the learner already has a position there.
    pub fn entry_position(existing: Option<u128>, topic_root_id: u128) -> (r: Option<u128>)
        ensures
            r == (match existing {
                Some(_) => None,
                None => Some(topic_root_id),
            }),
    {
        match existing {
            Some(_) => None,
            None => Some(topic_root_id),
        }
    }

    /// The node a question is about: the first node of the graph with that id.
    pub fn question_node(graph: &TopicGraph, node_id: u128) -> (r: Result<&GraphNode, Error>)
        ensures
            match first_with_id(node_views(graph.nodes@), node_id) {
                Some(i) => r matches Ok(n) && *n == graph.nodes@[i],
                None => r matches Err(Error::NotFound(m)) && m@ == "Node not found in graph"@,
            },
    {
        let ghost nv = node_views(graph.nodes@);
        let mut i: usize = 0;
        assert(nv.take(0) =~= Seq::<GraphNodeView>::empty());
        while i < graph.nodes.len()
            invariant
                i <= graph.nodes@.len(),
                nv == node_views(graph.nodes@),
                first_with_id(nv.take(i as int), node_id) is None,
            decreases graph.nodes.len() - i,
        {
            assert(nv.take(i + 1).drop_last() =~= nv.take(i as int));
            if graph.nodes[i].id == node_id {
                proof {
                    lemma_first_with_id_prefix(nv, i as int + 1, node_id);
                }
                return Ok(&graph.nodes[i]);
            }
            i = i + 1;
        }
        assert(nv.take(i as int) =~= nv);
        Err(Error::NotFound(String::from_str("Node not found in graph")))
    }

    /// The learning path given with a question: the titles of the visited and current nodes.
    pub fn visited_titles(graph: &TopicGraph) -> (r: Vec<String>)
        ensures
            texts(r@) == visited_titles_of(node_views(graph.nodes@)),
    {
        let ghost nv = node_views(graph.nodes@);
        let mut titles: Vec<String> = Vec::new();
        let mut i: usize = 0;
        assert(nv.take(0) =~= Seq::<GraphNodeView>::empty());
        while i < graph.nodes.len()
            invariant
                i <= graph.nodes@.len(),
                nv == node_views(graph.nodes@),
                texts(titles@) =~= visited_titles_of(nv.take(i as int)),
            decreases graph.nodes.len() - i,
        {
            assert(nv.take(i + 1).drop_last() =~= nv.take(i as int));
            let n = &graph.nodes[i];
            if n.state == NodeState::Visited || n.state == NodeState::Current {
                let ghost before = texts(titles@);
                titles.push(n.title.clone());
                assert(texts(titles@) =~= before.push(n.title@));
            }
            i = i + 1;
        }
        assert(nv.take(i as int) =~= nv);
        titles
    }
}

impl MutationRoot {
    /// The topic a node belongs to, from the topic id stored on the node (if the node was
    /// found).
    pub fn topic_root_of_node(stored_topic_id: Option<&str>) -> (r: Result<u128, Error>)
        ensures
            match stored_topic_id {
                None => r matches Err(Error::NotFound(m)) && m@
                    == "Could not find topic for this node"@,
                Some(t) => match uuid_parse(t@) {
                    Some(id) => r == Ok::<u128, Error>(id),
                    None => r matches Err(Error::Validation(m)) && m@ == "Invalid topic_root_id"@,
                },
            },
    {
        match stored_topic_id {
            None => Err(Error::NotFound(String::from_str("Could not find topic for this node"))),
            Some(t) => match parse_uuid(t) {
                Some(id) => Ok(id),
                None => Err(Error::Validation(String::from_str("Invalid topic_root_id"))),
            },
        }
    }
}

/// Which model an agent talks to, under which application name, with which key.
#[derive(Debug, Clone)]
pub struct AgentSettings {
    pub model: String,
    pub app_name: String,
    pub api_key: String,
}

/// The agent that investigates and answers: Gemini 2.5 Flash through OpenRouter.
pub fn create_ai_agent(api_key: String) -> (r: AgentSettings)
    ensures
        r.model@ == "google/gemini-2.5-flash"@,
        r.app_name@ == "ourmeadow"@,
        r.api_key == api_key,
{
    AgentSettings {
        model: String::from_str("google/gemini-2.5-flash"),
        app_name: String::from_str("ourmeadow"),
        api_key,
    }
}

/// The agent that embeds texts: OpenAI's small embedding model through OpenRouter.
pub fn create_embed_agent(api_key: String) -> (r: AgentSettings)
    ensures
        r.model@ == "openai/text-embedding-3-small"@,
        r.app_name@ == "ourmeadow"@,
        r.api_key == api_key,
{
    AgentSettings {
        model: String::from_str("openai/text-embedding-3-small"),
        app_name: String::from_str("ourmeadow"),
        api_key,
    }
}

/// A first match in a prefix is the first match in the whole sequence.
proof fn lemma_first_with_id_prefix(nodes: Seq<GraphNodeView>, k: int, id: u128)
    requires
        0 < k <= nodes.len(),
        first_with_id(nodes.take(k - 1), id) is None,
        nodes[k - 1].id == id,
    ensures
        first_with_id(nodes, id) == Some(k - 1),
    decreases nodes.len() - k,
{
    assert(nodes.take(k).drop_last() =~= nodes.take(k - 1));
    if k < nodes.len() {
        lemma_first_with_id_extend(nodes, k, id);
    } else {
        assert(nodes.take(k) =~= nodes);
    }
}

/// Once found in a prefix, the first match stays the same in every longer prefix.
proof fn lemma_first_with_id_extend(nodes: Seq<GraphNodeView>, k: int, id: u128)
    requires
        0 <= k <= nodes.len(),
        first_with_id(nodes.take(k), id) is Some,
    ensures
        first_with_id(nodes, id) == first_with_id(nodes.take(k), id),
    decreases nodes.len() - k,
{
    if k < nodes.len() {
        assert(nodes.take(k + 1).drop_last() =~= nodes.take(k));
        lemma_first_with_id_extend(nodes, k + 1, id);
    } else {
        assert(nodes.take(k) =~= nodes);
    }
}

} // verus!
