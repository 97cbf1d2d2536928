//! What the investigation agent proposes, and how its answers are read.
use vstd::prelude::*;

use crate::domains::graph::models::{copy_text, Resource, ResourceView};
use crate::error::Error;
use crate::text::{
    push_str, char_utf8_width, chars_of, find, find_exec, rfind, rfind_exec, string_of_range, sub_vec, trim,
    trim_bounds, utf8_len,
};

verus! {

broadcast use vstd::string::group_string_axioms;

/// A node the agent proposes.
#[derive(Debug)]
pub struct ProposedNode {
    pub title: String,
    pub description: String,
    pub movement: String,
    pub resources: Vec<ProposedResource>,
}

/// A learning resource the agent proposes.
#[derive(Debug)]
pub struct ProposedResource {
    pub resource_type: String,
    pub youtube_id: Option<String>,
    pub url: Option<String>,
    pub title: String,
    pub channel: Option<String>,
    pub reason: String,
}

pub struct ProposedNodeView {
    pub title: Seq<char>,
    pub description: Seq<char>,
    pub movement: Seq<char>,
    pub resources: Seq<ProposedResourceView>,
}

impl View for ProposedNode {
    type V = ProposedNodeView;

    open spec fn view(&self) -> ProposedNodeView {
        ProposedNodeView {
            title: self.title@,
            description: self.description@,
            movement: self.movement@,
            resources: self.resources.deep_view(),
        }
    }
}

impl DeepView for ProposedNode {
    type V = ProposedNodeView;

    open spec fn deep_view(&self) -> ProposedNodeView {
        self@
    }
}

pub struct ProposedResourceView {
    pub resource_type: Seq<char>,
    pub youtube_id: Option<Seq<char>>,
    pub url: Option<Seq<char>>,
    pub title: Seq<char>,
    pub channel: Option<Seq<char>>,
    pub reason: Seq<char>,
}

impl View for ProposedResource {
    type V = ProposedResourceView;

    open spec fn view(&self) -> ProposedResourceView {
        ProposedResourceView {
            resource_type: self.resource_type@,
            youtube_id: self.youtube_id.deep_view(),
            url: self.url.deep_view(),
            title: self.title@,
            channel: self.channel.deep_view(),
            reason: self.reason@,
        }
    }
}

impl ProposedResource {
    /// A copy of the proposed resource.
    pub fn duplicate(&self) -> (r: ProposedResource)
        ensures
            r@ == self@,
    {
        ProposedResource {
            resource_type: self.resource_type.clone(),
            youtube_id: copy_text(&self.youtube_id),
            url: copy_text(&self.url),
            title: self.title.clone(),
            channel: copy_text(&self.channel),
            reason: self.reason.clone(),
        }
    }
}

impl DeepView for ProposedResource {
    type V = ProposedResourceView;

    open spec fn deep_view(&self) -> ProposedResourceView {
        self@
    }
}

// ─── YouTube video ids ─────────────────────────────────────────────

/// Whether `c` is alphabetic or numeric in the Unicode sense (`char::is_alphanumeric`).
pub uninterp spec fn is_alphanumeric(c: char) -> bool;

/// `char::is_alphanumeric`: whether `c` has the Unicode `Alphabetic` property or a numeric
/// general category. The tables are not restated here; the result is named. Among ASCII
/// characters exactly the digits and the Latin letters are alphanumeric.
#[verifier::external_body]
fn char_is_alphanumeric(c: char) -> (r: bool)
    ensures
        r == is_alphanumeric(c),
        (c as u32) < 128 ==> r == (('0' <= c && c <= '9') || ('a' <= c && c <= 'z') || ('A' <= c
            && c <= 'Z')),
{
    c.is_alphanumeric()
}

/// A character that may appear in a YouTube video id.
pub open spec fn is_id_char(c: char) -> bool {
    is_alphanumeric(c) || c == '-' || c == '_'
}

/// The longest prefix of `s` made of id characters.
pub open spec fn id_run(s: Seq<char>) -> Seq<char>
    decreases s.len(),
{
    if s.len() > 0 && is_id_char(s[0]) {
        seq![s[0]] + id_run(s.drop_first())
    } else {
        seq![]
    }
}

/// The id following the first occurrence of `marker` in `url`, when its UTF-8 form is
/// 11 bytes long.
pub open spec fn id_after(url: Seq<char>, marker: Seq<char>) -> Option<Seq<char>> {
    match find(url, marker) {
        Some(p) => {
            let id = id_run(url.skip(p + marker.len()));
            if utf8_len(id) == 11 {
                Some(id)
            } else {
                None
            }
        },
        None => None,
    }
}

/// The video id of a `youtube.com/watch?v=ID` or `youtu.be/ID` link.
pub open spec fn youtube_id_of(url: Option<Seq<char>>) -> Option<Seq<char>> {
    match url {
        None => None,
        Some(u) => match id_after(u, "v="@) {
            Some(id) => Some(id),
            None => id_after(u, "youtu.be/"@),
        },
    }
}

/// Whether `c` may appear in a YouTube video id: a letter or digit, `-` or `_`. Among ASCII
/// characters these are exactly the Latin letters, the digits, `-` and `_`.
pub fn is_id_char_exec(c: char) -> (r: bool)
    ensures
        r == is_id_char(c),
        (c as u32) < 128 ==> r == (('0' <= c && c <= '9') || ('a' <= c && c <= 'z') || ('A' <= c
            && c <= 'Z') || c == '-' || c == '_'),
{
    char_is_alphanumeric(c) || c == '-' || c == '_'
}

/// The id following the first occurrence of `marker` in `v`, when it is 11 bytes long.
fn id_after_exec(v: &Vec<char>, marker: &str) -> (r: Option<String>)
    ensures
        r.deep_view() == id_after(v@, marker@),
{
    let m = chars_of(marker);
    match find_exec(v, &m) {
        None => None,
        Some(p) => {
            proof {
                lemma_find_bounds(v@, m@);
            }
            assert(find(v@, m@) == Some(p as int));
            assert(p + m@.len() <= v@.len());
            let vlen = v.len();
            assert(m@.len() == m.len());
            let start = p + m.len();
            let ghost rest = v@.skip(start as int);
            let mut j = start;
            let mut width: usize = 0;
            while j < v.len() && is_id_char_exec(v[j])
                invariant
                    start <= j <= v@.len(),
                    rest == v@.skip(start as int),
                    id_run(rest) == v@.subrange(start as int, j as int) + id_run(v@.skip(j as int)),
                    width == if utf8_len(v@.subrange(start as int, j as int)) < 12 {
                        utf8_len(v@.subrange(start as int, j as int))
                    } else {
                        12
                    },
                decreases v.len() - j,
            {
                let ghost tail = v@.skip(j as int);
                assert(tail[0] == v@[j as int]);
                assert(tail.drop_first() =~= v@.skip(j + 1));
                assert(v@.subrange(start as int, j as int) + (seq![v@[j as int]] + id_run(v@.skip(j + 1)))
                    =~= v@.subrange(start as int, j + 1) + id_run(v@.skip(j + 1)));
                assert(v@.subrange(start as int, j + 1).drop_last() =~= v@.subrange(start as int, j as int));
                let w = char_utf8_width(v[j]);
                width = if width + w < 12 { width + w } else { 12 };
                j = j + 1;
            }
            assert(id_run(v@.skip(j as int)) =~= Seq::<char>::empty());
            assert(id_run(rest) =~= v@.subrange(start as int, j as int));
            if width == 11 {
                Some(string_of_range(v, start, j))
            } else {
                None
            }
        },
    }
}

/// Where `find` reports a match, the pattern fits there.
pub proof fn lemma_find_bounds(s: Seq<char>, p: Seq<char>)
    ensures
        find(s, p) matches Some(i) ==> 0 <= i && i + p.len() <= s.len() && s.subrange(i, i + p.len())
            == p,
{
    lemma_find_from_bounds(s, p, 0);
}

proof fn lemma_find_from_bounds(s: Seq<char>, p: Seq<char>, from: int)
    ensures
        crate::text::find_from(s, p, from) matches Some(i) ==> from <= i && i + p.len() <= s.len()
            && s.subrange(i, i + p.len()) == p,
    decreases s.len() + 1 - from,
{
    if from >= 0 && from + p.len() <= s.len() && !crate::text::matches_at(s, p, from) {
        lemma_find_from_bounds(s, p, from + 1);
    }
}

/// Extract a YouTube video ID from a URL like:
///   https://www.youtube.com/watch?v=abc123XYZ_-
///   https://youtu.be/abc123XYZ_-
pub fn extract_youtube_id(url: Option<&str>) -> (r: Option<String>)
    ensures
        r.deep_view() == youtube_id_of(
            match url {
                Some(u) => Some(u@),
                None => None,
            },
        ),
{
    match url {
        None => None,
        Some(u) => {
            let v = chars_of(u);
            match id_after_exec(&v, "v=") {
                Some(id) => Some(id),
                None => id_after_exec(&v, "youtu.be/"),
            }
        },
    }
}

// ─── JSON arrays in free text ──────────────────────────────────────

/// The entries of the JSON object `text`, each as (whether its value is an array, the value
/// written out as compact JSON), in the order the parser's map yields them; `None` when `text`
/// is not a JSON object.
pub uninterp spec fn json_object_entries(text: Seq<char>) -> Option<Seq<(bool, Seq<char>)>>;

/// `serde_json::from_str::<serde_json::Value>`, then for an object each value's `is_array()`
/// and `to_string()`. The parse and the map order are named, not restated; of an array value
/// it is stated that its compact JSON text begins with `[`, and that it can only have been
/// read from a text that holds a `[`.
#[verifier::external_body]
fn object_entries(text: &str) -> (r: Option<Vec<(bool, String)>>)
    ensures
        r.deep_view() == json_object_entries(text@),
        r matches Some(es) ==> forall|k: int|
            0 <= k < es@.len() && (#[trigger] es@[k]).0 ==> es@[k].1@.len() > 0 && es@[k].1@[0]
                == '[' && text@.contains('['),
{
    match serde_json::from_str::<serde_json::Value>(text) {
        Ok(serde_json::Value::Object(map)) => Some(
            map.values().map(|v| (v.is_array(), v.to_string())).collect(),
        ),
        _ => None,
    }
}

/// The first array value among object entries.
pub open spec fn first_array(entries: Seq<(bool, Seq<char>)>) -> Option<Seq<char>>
    decreases entries.len(),
{
    if entries.len() == 0 {
        None
    } else {
        match first_array(entries.drop_last()) {
            Some(a) => Some(a),
            None => if entries.last().0 {
                Some(entries.last().1)
            } else {
                None
            },
        }
    }
}

/// The first array value of the JSON object `text`.
pub open spec fn array_in_object(text: Seq<char>) -> Option<Seq<char>> {
    match json_object_entries(text) {
        Some(es) => first_array(es),
        None => None,
    }
}

/// `s` begins with `c`.
pub open spec fn begins_with(s: Seq<char>, c: char) -> bool {
    s.len() > 0 && s[0] == c
}

/// The trimmed text between the first `marker` and the next fence after it.
pub open spec fn fenced_block(t: Seq<char>, marker: Seq<char>) -> Option<Seq<char>> {
    match find(t, marker) {
        Some(st) => {
            let after = t.skip(st + marker.len());
            match find(after, "```"@) {
                Some(e) => Some(trim(after.take(e))),
                None => None,
            }
        },
        None => None,
    }
}

/// The JSON array a code block holds: the block itself when it is an array, or the first
/// array value when it is an object.
pub open spec fn block_array(b: Seq<char>) -> Option<Seq<char>> {
    if begins_with(b, '[') {
        Some(b)
    } else if begins_with(b, '{') {
        array_in_object(b)
    } else {
        None
    }
}

/// The array a fenced block holds, if the fence exists and holds one.
pub open spec fn fenced_array(t: Seq<char>, marker: Seq<char>) -> Option<Seq<char>> {
    match fenced_block(t, marker) {
        Some(b) => block_array(b),
        None => None,
    }
}

/// The JSON array found in an agent's answer: the whole trimmed answer when it is an array;
/// else the array in a ```` ```json ```` block; else in a plain ```` ``` ```` block; else the
/// span from the first `[` to the last `]`; else the first array value of the span from the
/// first `{` to the last `}`.
pub open spec fn json_array_in(text: Seq<char>) -> Option<Seq<char>> {
    let t = trim(text);
    if begins_with(t, '[') {
        Some(t)
    } else if fenced_array(t, "```json"@) is Some {
        fenced_array(t, "```json"@)
    } else if fenced_array(t, "```"@) is Some {
        fenced_array(t, "```"@)
    } else if find(t, seq!['[']) is Some && rfind(t, ']') is Some && rfind(t, ']')->0 > find(
        t,
        seq!['['],
    )->0 {
        Some(t.subrange(find(t, seq!['['])->0, rfind(t, ']')->0 + 1))
    } else if find(t, seq!['{']) is Some && rfind(t, '}') is Some && rfind(t, '}')->0 > find(
        t,
        seq!['{'],
    )->0 {
        array_in_object(t.subrange(find(t, seq!['{'])->0, rfind(t, '}')->0 + 1))
    } else {
        None
    }
}

/// Given a JSON object's text, extract the first array value from any key.
fn extract_array_from_object(b: &Vec<char>) -> (r: Option<String>)
    ensures
        r.deep_view() == array_in_object(b@),
        r matches Some(a) ==> begins_with(a@, '['),
        r is Some ==> b@.contains('['),
{
    let s = string_of_range(b, 0, b.len());
    assert(b@.subrange(0, b@.len() as int) =~= b@);
    match object_entries(s.as_str()) {
        None => None,
        Some(es) => {
            let ghost ev = es.deep_view();
            let mut found: Option<String> = None;
            let mut i: usize = 0;
            while i < es.len()
                invariant
                    i <= es@.len(),
                    ev == es.deep_view(),
                    ev.len() == es@.len(),
                    found.deep_view() == first_array(ev.take(i as int)),
                    forall|k: int|
                        0 <= k < es@.len() && (#[trigger] es@[k]).0 ==> es@[k].1@.len() > 0
                            && es@[k].1@[0] == '[' && s@.contains('['),
                    found matches Some(a) ==> begins_with(a@, '['),
                    found is Some ==> s@.contains('['),
                    s@ == b@,
                decreases es.len() - i,
            {
                assert(ev.take(i + 1).drop_last() =~= ev.take(i as int));
                assert(ev[i as int] == (es@[i as int].0, es@[i as int].1@));
                if found.is_none() && es[i].0 {
                    found = Some(es[i].1.clone());
                }
                i = i + 1;
            }
            assert(ev.take(i as int) =~= ev);
            found
        },
    }
}

/// The array a code block holds.
fn block_array_exec(b: &Vec<char>) -> (r: Option<String>)
    ensures
        r.deep_view() == block_array(b@),
        r matches Some(a) ==> begins_with(a@, '['),
        r is Some ==> b@.contains('['),
{
    if b.len() > 0 && b[0] == '[' {
        assert(b@.contains('[')) by {
            assert(b@[0] == '[');
        }
        let s = string_of_range(b, 0, b.len());
        assert(b@.subrange(0, b@.len() as int) =~= b@);
        Some(s)
    } else if b.len() > 0 && b[0] == '{' {
        extract_array_from_object(b)
    } else {
        None
    }
}

/// The array in the block fenced by `marker`.
fn fenced_array_exec(t: &Vec<char>, marker: &str) -> (r: Option<String>)
    ensures
        r.deep_view() == fenced_array(t@, marker@),
        r matches Some(a) ==> begins_with(a@, '['),
        r is Some ==> t@.contains('['),
{
    let m = chars_of(marker);
    let tlen = t.len();
    match find_exec(t, &m) {
        None => None,
        Some(st) => {
            proof {
                lemma_find_bounds(t@, m@);
            }
            assert(find(t@, m@) == Some(st as int));
            assert(m@.len() == m.len());
            let after = sub_vec(t, st + m.len(), tlen);
            assert(after@ =~= t@.skip(st + m@.len()));
            let fence = chars_of("```");
            match find_exec(&after, &fence) {
                None => None,
                Some(e) => {
                    proof {
                        lemma_find_bounds(after@, fence@);
                    }
                    assert(find(after@, fence@) == Some(e as int));
                    let (x, y) = trim_bounds(&after, 0, e);
                    let block = sub_vec(&after, x, y);
                    assert(after@.subrange(0, e as int) =~= after@.take(e as int));
                    let r = block_array_exec(&block);
                    proof {
                        if r is Some {
                            lemma_sub_contains(after@, x as int, y as int, '[');
                            assert(after@ =~= t@.subrange(st + m@.len(), t@.len() as int));
                            lemma_sub_contains(t@, st + m@.len(), t@.len() as int, '[');
                        }
                    }
                    r
                },
            }
        },
    }
}

/// A character of a part of `s` is a character of `s`.
proof fn lemma_sub_contains(s: Seq<char>, lo: int, hi: int, c: char)
    requires
        0 <= lo <= hi <= s.len(),
        s.subrange(lo, hi).contains(c),
    ensures
        s.contains(c),
{
    let i = choose|i: int| 0 <= i < hi - lo && s.subrange(lo, hi)[i] == c;
    assert(s[lo + i] == c);
}

/// Find the JSON array in an agent's answer (it might be wrapped in a code block, or in an
/// object such as `{"proposals": [...]}`).
pub fn extract_json_array(text: &str) -> (r: Option<String>)
    ensures
        r.deep_view() == json_array_in(text@),
        r matches Some(a) ==> begins_with(a@, '['),
        !text@.contains('[') ==> r is None,
{
    let v = chars_of(text);
    let (a, b) = trim_bounds(&v, 0, v.len());
    let t = sub_vec(&v, a, b);
    assert(v@.subrange(0, v@.len() as int) =~= text@);
    let ghost tv = t@;
    assert(tv == trim(text@));
    assert(t@ =~= v@.subrange(a as int, b as int));
    if t.len() > 0 && t[0] == '[' {
        let s = string_of_range(&t, 0, t.len());
        assert(t@.subrange(0, t@.len() as int) =~= t@);
        proof {
            assert(t@[0] == '[');
            lemma_sub_contains(v@, a as int, b as int, '[');
        }
        return Some(s);
    }
    let r1 = fenced_array_exec(&t, "```json");
    if r1.is_some() {
        proof {
            lemma_sub_contains(v@, a as int, b as int, '[');
        }
        return r1;
    }
    let r2 = fenced_array_exec(&t, "```");
    if r2.is_some() {
        proof {
            lemma_sub_contains(v@, a as int, b as int, '[');
        }
        return r2;
    }
    let open_bracket = chars_of("[");
    proof {
        reveal_strlit("[");
        reveal_strlit("{");
    }
    assert(open_bracket@ =~= seq!['[']);
    let first_open = find_exec(&t, &open_bracket);
    let last_close = rfind_exec(&t, ']');
    proof {
        lemma_find_bounds(tv, seq!['[']);
        crate::text::lemma_rfind_bounds(tv, ']');
    }
    match (first_open, last_close) {
        (Some(s), Some(e)) => {
            if e > s {
                let found = string_of_range(&t, s, e + 1);
                assert(tv.subrange(s as int, s + 1) =~= seq!['[']);
                assert(found@[0] == tv[s as int]);
                proof {
                    assert(t@[s as int] == '[');
                    lemma_sub_contains(v@, a as int, b as int, '[');
                }
                return Some(found);
            }
        },
        _ => {},
    }
    let open_brace = chars_of("{");
    assert(open_brace@ =~= seq!['{']);
    let first_brace = find_exec(&t, &open_brace);
    let last_brace = rfind_exec(&t, '}');
    proof {
        lemma_find_bounds(tv, seq!['{']);
        crate::text::lemma_rfind_bounds(tv, '}');
    }
    match (first_brace, last_brace) {
        (Some(s), Some(e)) => {
            if e > s {
                let obj = sub_vec(&t, s, e + 1);
                let r = extract_array_from_object(&obj);
                proof {
                    if r is Some {
                        lemma_sub_contains(t@, s as int, e + 1, '[');
                        lemma_sub_contains(v@, a as int, b as int, '[');
                    }
                }
                return r;
            }
        },
        _ => {},
    }
    None
}

/// The JSON text of the proposals in an agent's answer, or the error the answer earns when it
/// holds no JSON array.
pub fn proposals_json(response: &str) -> (r: Result<String, Error>)
    ensures
        match json_array_in(response@) {
            Some(a) => r matches Ok(s) && s@ == a,
            None => r matches Err(Error::Ai(m)) && m@ == "No JSON array found in agent response"@,
        },
{
    match extract_json_array(response) {
        Some(s) => Ok(s),
        None => Err(Error::Ai(String::from_str("No JSON array found in agent response"))),
    }
}

// ─── Resources ─────────────────────────────────────────────────────

/// The resource a proposed resource becomes: its video id is the one given, or else the one
/// its URL carries; it starts without votes.
pub open spec fn resource_of(p: ProposedResourceView) -> ResourceView {
    ResourceView {
        resource_type: p.resource_type,
        youtube_id: match p.youtube_id {
            Some(y) => Some(y),
            None => youtube_id_of(p.url),
        },
        url: p.url,
        title: p.title,
        channel: p.channel,
        reason: p.reason,
        votes: 0,
    }
}

impl Resource {
    /// The resource a proposed resource becomes.
    pub fn from_proposed(r: ProposedResource) -> (res: Resource)
        ensures
            res@ == resource_of(r@),
    {
        let youtube_id = match r.youtube_id {
            Some(y) => Some(y),
            None => match &r.url {
                Some(u) => extract_youtube_id(Some(u.as_str())),
                None => extract_youtube_id(None),
            },
        };
        Resource {
            resource_type: r.resource_type,
            youtube_id,
            url: r.url,
            title: r.title,
            channel: r.channel,
            reason: r.reason,
            votes: 0,
        }
    }
}

// ─── The investigation loop ────────────────────────────────────────

/// The request sent when the agent's first answer could not be read as proposals.
pub const REFORMAT_PROMPT: &'static str = "Your previous response did not contain a valid JSON array. Please reformat your findings as a JSON array exactly matching this schema:\n[{\"title\": \"...\", \"description\": \"...\", \"movement\": \"SUPPORTS|DEEPENS|RELATES_TO|APPLIES|CONTEXTUALIZES\", \"resources\": [{\"type\": \"...\", \"url\": \"...\", \"title\": \"...\", \"channel\": null, \"reason\": \"...\"}]}]\nReturn ONLY the JSON array, no other text.";

/// A tool the investigation agent can use.
#[derive(Debug, Clone, Copy, PartialEq, Eq, Structural)]
pub enum InvestigationTool {
    TavilySearch,
    ExistingNodes,
    YoutubeSearch,
    YoutubeDetails,
}

/// The tools the agent gets: web search and the graph listing always, the two YouTube tools
/// only with a YouTube API key.
pub fn investigation_tools(youtube_api_key: &str) -> (r: Vec<InvestigationTool>)
    ensures
        youtube_api_key@.len() == 0 ==> r@ == seq![
            InvestigationTool::TavilySearch,
            InvestigationTool::ExistingNodes,
        ],
        youtube_api_key@.len() > 0 ==> r@ == seq![
            InvestigationTool::TavilySearch,
            InvestigationTool::ExistingNodes,
            InvestigationTool::YoutubeSearch,
            InvestigationTool::YoutubeDetails,
        ],
{
    let mut tools = vec![InvestigationTool::TavilySearch, InvestigationTool::ExistingNodes];
    if youtube_api_key.unicode_len() > 0 {
        tools.push(InvestigationTool::YoutubeSearch);
        tools.push(InvestigationTool::YoutubeDetails);
    }
    tools
}

/// What the investigation does after reading an answer.
#[derive(Debug)]
pub enum InvestigationStep {
    /// The proposals were read.
    Done(Vec<ProposedNode>),
    /// Ask the agent, once, to give its findings again as a JSON array.
    Reformat,
    /// The investigation failed.
    Failed(Error),
}

/// The next step after an answer was read into `parsed`: done when it held proposals; else a
/// single request to reformat, and failure when the reformatted answer cannot be read either.
pub fn after_answer(reformatted: bool, parsed: Result<Vec<ProposedNode>, Error>) -> (r: InvestigationStep)
    ensures
        match parsed {
            Ok(p) => r == InvestigationStep::Done(p),
            Err(e) => if reformatted {
                r == InvestigationStep::Failed(e)
            } else {
                r is Reformat
            },
        },
{
    match parsed {
        Ok(p) => InvestigationStep::Done(p),
        Err(e) => if reformatted {
            InvestigationStep::Failed(e)
        } else {
            InvestigationStep::Reformat
        },
    }
}

/// The error for proposals whose JSON could not be decoded, carrying the decoder's message.
pub fn decode_failure(message: &str) -> (r: Error)
    ensures
        r matches Error::Ai(m) && m@ == "Failed to parse proposals: "@ + message@,
{
    let mut m = String::from_str("Failed to parse proposals: ");
    push_str(&mut m, message);
    Error::Ai(m)
}

// ─── Laws ──────────────────────────────────────────────────────────

/// Scanning from `from` for the one-character pattern `c` stops at the first `c` there is.
proof fn lemma_find_char_from(s: Seq<char>, c: char, from: int)
    requires
        0 <= from,
    ensures
        match crate::text::find_from(s, seq![c], from) {
            Some(i) => from <= i < s.len() && s[i] == c && forall|k: int| from <= k < i ==> s[k] != c,
            None => forall|k: int| from <= k < s.len() ==> s[k] != c,
        },
    decreases s.len() + 1 - from,
{
    if from + 1 <= s.len() {
        assert(s.subrange(from, from + 1) =~= seq![s[from]]);
        if s[from] != c {
            assert(s.subrange(from, from + 1) != seq![c]) by {
                assert(s.subrange(from, from + 1)[0] != seq![c][0]);
            }
            lemma_find_char_from(s, c, from + 1);
        }
    }
}

/// `find` of a single character gives its first occurrence, and nothing when there is none.
proof fn lemma_find_char(s: Seq<char>, c: char)
    ensures
        match find(s, seq![c]) {
            Some(i) => 0 <= i < s.len() && s[i] == c && forall|k: int| 0 <= k < i ==> s[k] != c,
            None => forall|k: int| 0 <= k < s.len() ==> s[k] != c,
        },
{
    lemma_find_char_from(s, c, 0);
}

proof fn lemma_rfind_below_last(s: Seq<char>, c: char, hi: int)
    requires
        0 <= hi <= s.len(),
    ensures
        match crate::text::rfind_below(s, c, hi) {
            Some(i) => 0 <= i < hi && s[i] == c && forall|k: int| i < k < hi ==> s[k] != c,
            None => forall|k: int| 0 <= k < hi ==> s[k] != c,
        },
    decreases hi,
{
    if hi > 0 && s[hi - 1] != c {
        lemma_rfind_below_last(s, c, hi - 1);
    }
}

/// `rfind` gives the last occurrence of a character, and nothing when there is none.
proof fn lemma_rfind_last(s: Seq<char>, c: char)
    ensures
        match rfind(s, c) {
            Some(i) => 0 <= i < s.len() && s[i] == c && forall|k: int| i < k < s.len() ==> s[k] != c,
            None => forall|k: int| 0 <= k < s.len() ==> s[k] != c,
        },
{
    lemma_rfind_below_last(s, c, s.len() as int);
}

/// `-` and `_` may appear in a video id.
pub proof fn lemma_dash_and_underscore_are_id_chars()
    ensures
        is_id_char('-'),
        is_id_char('_'),
{
}

/// The run of id characters at the front of `s` is a prefix of `s` made only of id
/// characters, and it is the longest one: it ends at the end of `s` or before a character
/// that may not appear in an id.
pub proof fn lemma_id_run_longest(s: Seq<char>)
    ensures
        id_run(s).len() <= s.len(),
        id_run(s) == s.take(id_run(s).len() as int),
        forall|k: int| 0 <= k < id_run(s).len() ==> is_id_char(#[trigger] s[k]),
        id_run(s).len() < s.len() ==> !is_id_char(s[id_run(s).len() as int]),
    decreases s.len(),
{
    if s.len() > 0 && is_id_char(s[0]) {
        let t = s.drop_first();
        lemma_id_run_longest(t);
        assert(id_run(s) =~= s.take(id_run(s).len() as int));
        assert forall|k: int| 0 <= k < id_run(s).len() implies is_id_char(#[trigger] s[k]) by {
            if k > 0 {
                assert(s[k] == t[k - 1]);
            }
        }
        if id_run(s).len() < s.len() {
            assert(s[id_run(s).len() as int] == t[id_run(t).len() as int]);
        }
    }
}

/// A run of ASCII characters takes one byte each.
proof fn lemma_ascii_utf8_len(s: Seq<char>)
    requires
        forall|k: int| 0 <= k < s.len() ==> (#[trigger] s[k] as u32) < 128,
    ensures
        utf8_len(s) == s.len(),
    decreases s.len(),
{
    if s.len() > 0 {
        let d = s.drop_last();
        assert forall|k: int| 0 <= k < d.len() implies (#[trigger] d[k] as u32) < 128 by {
            assert(d[k] == s[k]);
        }
        lemma_ascii_utf8_len(d);
        assert((s[s.len() - 1] as u32) < 128);
    }
}

/// Eleven ASCII id characters right after the first `marker` of a link, up to its end or to
/// a character that may not appear in an id, are what `id_after` reads there.
proof fn lemma_id_after_run(url: Seq<char>, marker: Seq<char>, p: int, id: Seq<char>, rest: Seq<char>)
    requires
        find(url, marker) == Some(p),
        url.skip(p + marker.len()) == id + rest,
        id.len() == 11,
        forall|k: int| 0 <= k < 11 ==> is_id_char(#[trigger] id[k]) && (id[k] as u32) < 128,
        rest.len() == 0 || !is_id_char(rest[0]),
    ensures
        id_after(url, marker) == Some(id),
{
    let tail = url.skip(p + marker.len());
    lemma_id_run_longest(tail);
    let r = id_run(tail);
    if r.len() < 11 {
        let m = r.len() as int;
        assert(tail[m] == id[m]);
        assert(is_id_char(id[m]));
    }
    if r.len() > 11 {
        assert(tail[11] == rest[0]);
    }
    assert(r =~= id) by {
        assert forall|k: int| 0 <= k < 11 implies r[k] == id[k] by {
            assert(r[k] == tail[k]);
            assert(tail[k] == id[k]);
        }
    }
    lemma_ascii_utf8_len(id);
}

/// Eleven ASCII id characters right after the first `v=` of a link, up to its end or to a
/// character that may not appear in an id, are the link's video id; `-` and `_` among them
/// do not end it.
pub proof fn lemma_watch_link_id(url: Seq<char>, p: int, id: Seq<char>, rest: Seq<char>)
    requires
        find(url, "v="@) == Some(p),
        url.skip(p + 2) == id + rest,
        id.len() == 11,
        forall|k: int| 0 <= k < 11 ==> is_id_char(#[trigger] id[k]) && (id[k] as u32) < 128,
        rest.len() == 0 || !is_id_char(rest[0]),
    ensures
        youtube_id_of(Some(url)) == Some(id),
{
    reveal_strlit("v=");
    lemma_id_after_run(url, "v="@, p, id, rest);
}

/// In a link without `v=`, eleven ASCII id characters right after the first `youtu.be/`, up
/// to its end or to a character that may not appear in an id, are the link's video id.
pub proof fn lemma_short_link_id(url: Seq<char>, p: int, id: Seq<char>, rest: Seq<char>)
    requires
        find(url, "v="@) is None,
        find(url, "youtu.be/"@) == Some(p),
        url.skip(p + 9) == id + rest,
        id.len() == 11,
        forall|k: int| 0 <= k < 11 ==> is_id_char(#[trigger] id[k]) && (id[k] as u32) < 128,
        rest.len() == 0 || !is_id_char(rest[0]),
    ensures
        youtube_id_of(Some(url)) == Some(id),
{
    reveal_strlit("youtu.be/");
    lemma_id_after_run(url, "youtu.be/"@, p, id, rest);
}

/// A link holds no video id unless it has `v=` or `youtu.be/`; no link, no id.
pub proof fn lemma_no_marker_no_id(url: Option<Seq<char>>)
    requires
        url matches Some(u) ==> find(u, "v="@) is None && find(u, "youtu.be/"@) is None,
    ensures
        youtube_id_of(url) is None,
{
}

/// A trimmed answer that opens with `[` is read whole as the array.
pub proof fn lemma_whole_answer_array(text: Seq<char>)
    requires
        begins_with(trim(text), '['),
    ensures
        json_array_in(text) == Some(trim(text)),
{
}

/// A proposed resource keeps, as a node's resource, its type, link, title, channel and
/// reason; a video id it names is kept; it starts without votes.
pub proof fn lemma_resource_keeps_proposal(p: ProposedResourceView)
    ensures
        resource_of(p).url == p.url,
        resource_of(p).resource_type == p.resource_type,
        resource_of(p).title == p.title,
        resource_of(p).channel == p.channel,
        resource_of(p).reason == p.reason,
        resource_of(p).votes == 0,
        p.youtube_id is Some ==> resource_of(p).youtube_id == p.youtube_id,
        p.youtube_id is None && p.url is None ==> resource_of(p).youtube_id is None,
        p.youtube_id is None ==> resource_of(p).youtube_id == youtube_id_of(p.url),
{
}

/// When the answer is neither an array nor holds one in a code block, but has a `[` before a
/// `]`, the array read from it is the span of the trimmed answer from its first `[` to its
/// last `]`; `i` is where that span starts.
pub proof fn lemma_bracket_span(text: Seq<char>) -> (i: int)
    requires
        !begins_with(trim(text), '['),
        fenced_array(trim(text), "```json"@) is None,
        fenced_array(trim(text), "```"@) is None,
        exists|i: int, j: int|
            0 <= i < j < trim(text).len() && #[trigger] trim(text)[i] == '[' && #[trigger] trim(
                text,
            )[j] == ']',
    ensures
        json_array_in(text) matches Some(a) && {
            &&& 0 <= i
            &&& i + a.len() <= trim(text).len()
            &&& trim(text).subrange(i, i + a.len()) == a
            &&& !trim(text).take(i).contains('[')
            &&& a.len() >= 2
            &&& a[0] == '['
            &&& a[a.len() - 1] == ']'
            &&& !trim(text).skip(i + a.len()).contains(']')
        },
{
    let t = trim(text);
    let (i0, j0) = choose|i: int, j: int|
        0 <= i < j < trim(text).len() && #[trigger] trim(text)[i] == '[' && #[trigger] trim(text)[j]
            == ']';
    lemma_find_char(t, '[');
    lemma_rfind_last(t, ']');
    let f = find(t, seq!['['])->0;
    let l = rfind(t, ']')->0;
    assert(f <= i0);
    assert(l >= j0);
    let a = t.subrange(f, l + 1);
    assert(json_array_in(text) == Some(a));
    assert(t.subrange(f, f + a.len()) =~= a);
    assert(!t.take(f).contains('[')) by {
        let front = t.take(f);
        if front.contains('[') {
            let k = choose|k: int| 0 <= k < front.len() && #[trigger] front[k] == '[';
            assert(t[k] == '[');
        }
    }
    assert(!t.skip(f + a.len()).contains(']')) by {
        let rest = t.skip(f + a.len());
        if rest.contains(']') {
            let k = choose|k: int| 0 <= k < rest.len() && #[trigger] rest[k] == ']';
            assert(t[l + 1 + k] == ']');
        }
    }
    assert(a[0] == t[f]);
    assert(a[a.len() - 1] == t[l]);
    assert(a.len() >= 2);
    assert(a[0] == '[');
    assert(a[a.len() - 1] == ']');
    assert(f + a.len() <= t.len());
    f
}

} // verus!
