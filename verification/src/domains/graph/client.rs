//! Setting up the graph store.
use vstd::prelude::*;

use crate::text::{chars_of, find, find_exec};

verus! {

broadcast use vstd::string::group_string_axioms;

/// The statements that set up uniqueness constraints.
pub const CONSTRAINTS: [&'static str; 2] = [
    "CREATE CONSTRAINT ON (n:Node) ASSERT n.id IS UNIQUE",
    "CREATE CONSTRAINT ON (t:TopicRoot) ASSERT t.id IS UNIQUE",
];

/// The statements that set up lookup indexes.
pub const INDEXES: [&'static str; 1] = ["CREATE INDEX ON :Node(topic_root_id)"];

/// The statements that set up the vector indexes of the embeddings.
pub const VECTOR_INDEXES: [&'static str; 2] = [
    r#"CREATE VECTOR INDEX ON :Node(embedding) WITH CONFIG {"dimension": 1536, "metric": "cos"}"#,
    r#"CREATE VECTOR INDEX ON :TopicRoot(embedding) WITH CONFIG {"dimension": 1536, "metric": "cos"}"#,
];

/// Whether a failed set-up statement failed only because what it creates already exists,
/// which set-up expects on every start after the first.
pub fn schema_error_is_expected(message: &str) -> (r: bool)
    ensures
        r == (find(message@, "already exists"@) is Some),
{
    let m = chars_of(message);
    let p = chars_of("already exists");
    find_exec(&m, &p).is_some()
}

} // verus!
