//! Reading a curriculum outline out of a model's answer.
use vstd::prelude::*;

use crate::domains::ai::agent::lemma_find_bounds;
use crate::config::AppConfig;
use crate::error::Error;
use crate::prompt_registry::{fill, PromptRegistry};
use crate::text::{
    decimal, push_decimal, push_str, str_eq, chars_of, find, find_exec, lemma_rfind_bounds, rfind, rfind_exec, string_of_range, sub_vec, trim,
    trim_bounds,
};

verus! {

broadcast use vstd::string::group_string_axioms;

/// The trimmed text between `start` and the next fence at or after it.
pub open spec fn block_from(text: Seq<char>, start: int) -> Option<Seq<char>> {
    match find(text.skip(start), "```"@) {
        Some(e) => Some(trim(text.subrange(start, start + e))),
        None => None,
    }
}

/// Where a plain code block's content starts: after the fence and the rest of its line
/// (a language tag), or right after the fence when no line break follows.
pub open spec fn plain_block_start(text: Seq<char>, fence: int) -> int {
    match find(text.skip(fence + 3), seq!['\n']) {
        Some(i) => fence + 3 + i + 1,
        None => fence + 3,
    }
}

/// The JSON block of a ```` ```json ```` fence, if the fence is found and closed.
pub open spec fn json_fence_block(text: Seq<char>) -> Option<Seq<char>> {
    match find(text, "```json"@) {
        Some(st) => block_from(text, st + 7),
        None => None,
    }
}

/// The content of the first plain fence, if it is closed.
pub open spec fn plain_fence_block(text: Seq<char>) -> Option<Seq<char>> {
    match find(text, "```"@) {
        Some(st) => block_from(text, plain_block_start(text, st)),
        None => None,
    }
}

/// Whether the search falls back to the span between the first `{` and the last `}`.
pub open spec fn uses_brace_span(text: Seq<char>) -> bool {
    json_fence_block(text) is None && plain_fence_block(text) is None && find(text, seq!['{']) is Some
        && rfind(text, '}') is Some
}

/// The JSON text found in a model's answer: the content of a ```` ```json ```` block, else of
/// a plain code block, else the span from the first `{` to the last `}`.
pub open spec fn json_in(text: Seq<char>) -> Option<Seq<char>> {
    if json_fence_block(text) is Some {
        json_fence_block(text)
    } else if plain_fence_block(text) is Some {
        plain_fence_block(text)
    } else if uses_brace_span(text) {
        Some(text.subrange(find(text, seq!['{'])->0, rfind(text, '}')->0 + 1))
    } else {
        None
    }
}

/// The trimmed block between `start` and the next fence.
fn block_from_exec(v: &Vec<char>, start: usize) -> (r: Option<String>)
    requires
        start <= v@.len(),
    ensures
        r.deep_view() == block_from(v@, start as int),
{
    let fence = chars_of("```");
    let vlen = v.len();
    let rest = sub_vec(v, start, vlen);
    assert(rest@ =~= v@.skip(start as int));
    match find_exec(&rest, &fence) {
        None => None,
        Some(e) => {
            proof {
                lemma_find_bounds(rest@, fence@);
            }
            assert(find(rest@, fence@) == Some(e as int));
            let (x, y) = trim_bounds(v, start, start + e);
            Some(string_of_range(v, x, y))
        },
    }
}

/// The block of a ```` ```json ```` fence in `v`.
fn json_fence_block_exec(v: &Vec<char>) -> (r: Option<String>)
    ensures
        r.deep_view() == json_fence_block(v@),
{
    let json_fence = chars_of("```json");
    proof {
        reveal_strlit("```json");
    }
    match find_exec(v, &json_fence) {
        Some(st) => {
            proof {
                lemma_find_bounds(v@, json_fence@);
            }
            assert(find(v@, json_fence@) == Some(st as int));
            let vlen = v.len();
            block_from_exec(v, st + 7)
        },
        None => None,
    }
}

/// The block of the first plain fence in `v`.
fn plain_fence_block_exec(v: &Vec<char>) -> (r: Option<String>)
    ensures
        r.deep_view() == plain_fence_block(v@),
{
    let vlen = v.len();
    let fence = chars_of("```");
    proof {
        reveal_strlit("```");
        reveal_strlit("\n");
    }
    match find_exec(v, &fence) {
        Some(st0) => {
            proof {
                lemma_find_bounds(v@, fence@);
            }
            assert(find(v@, fence@) == Some(st0 as int));
            let start = st0 + 3;
            let rest = sub_vec(v, start, vlen);
            assert(rest@ =~= v@.skip(start as int));
            let newline = chars_of("\n");
            assert(newline@ =~= seq!['\n']);
            let start = match find_exec(&rest, &newline) {
                Some(i) => {
                    proof {
                        lemma_find_bounds(rest@, newline@);
                    }
                    assert(find(rest@, newline@) == Some(i as int));
                    start + i + 1
                },
                None => start,
            };
            assert(start == plain_block_start(v@, st0 as int));
            block_from_exec(v, start)
        },
        None => None,
    }
}

/// Whether the search for JSON in `text` falls back to a brace span that ends before it
/// starts (a last `}` before the first `{`), the one answer `extract_json` is not defined on.
pub fn brace_span_reversed(text: &str) -> (r: bool)
    ensures
        r == (uses_brace_span(text@) && rfind(text@, '}')->0 + 1 < find(text@, seq!['{'])->0),
{
    let v = chars_of(text);
    if json_fence_block_exec(&v).is_some() || plain_fence_block_exec(&v).is_some() {
        return false;
    }
    let open_brace = chars_of("{");
    proof {
        reveal_strlit("{");
    }
    assert(open_brace@ =~= seq!['{']);
    match (find_exec(&v, &open_brace), rfind_exec(&v, '}')) {
        (Some(s), Some(e)) => {
            proof {
                lemma_find_bounds(v@, seq!['{']);
                lemma_rfind_bounds(v@, '}');
            }
            e + 1 < s
        },
        _ => false,
    }
}

/// Find the JSON in a model's answer (handle markdown code blocks).
///
/// Defined on every answer whose fallback brace span, where one is used, does not end before
/// it starts.
pub fn extract_json(text: &str) -> (r: Result<String, Error>)
    requires
        uses_brace_span(text@) ==> rfind(text@, '}')->0 + 1 >= find(text@, seq!['{'])->0,
    ensures
        match json_in(text@) {
            Some(j) => r matches Ok(s) && s@ == j,
            None => r matches Err(Error::Internal(m)) && m@ == "No JSON found in AI response"@,
        },
{
    let v = chars_of(text);
    let vlen = v.len();
    if let Some(b) = json_fence_block_exec(&v) {
        return Ok(b);
    }
    if let Some(b) = plain_fence_block_exec(&v) {
        return Ok(b);
    }
    proof {
        reveal_strlit("{");
    }
    let open_brace = chars_of("{");
    assert(open_brace@ =~= seq!['{']);
    match find_exec(&v, &open_brace) {
        Some(s) => {
            proof {
                lemma_find_bounds(v@, seq!['{']);
            }
            match rfind_exec(&v, '}') {
                Some(e) => {
                    proof {
                        lemma_rfind_bounds(v@, '}');
                    }
                    return Ok(string_of_range(&v, s, e + 1));
                },
                None => {},
            }
        },
        None => {},
    }
    Err(Error::Internal(String::from_str("No JSON found in AI response")))
}


// ─── Asking for an outline ─────────────────────────────────────────

/// The prompt that asks for an outline of `topic` in `chapter_count` chapters: the
/// `generate_curriculum` template with `{{topic}}` and `{{chapter_count}}` filled in.
pub fn outline_prompt(prompts: &PromptRegistry, topic: &str, chapter_count: u32) -> (r: Result<
    String,
    Error,
>)
    ensures
        match prompts.template("generate_curriculum"@) {
            Some(t) => r matches Ok(s) && s@ == fill(
                t,
                seq![("topic"@, topic@), ("chapter_count"@, decimal(chapter_count as nat))],
            ),
            None => r matches Err(Error::Internal(m)) && m@ == "Prompt template not found: "@
                + "generate_curriculum"@,
        },
{
    let mut count = String::new();
    push_decimal(&mut count, chapter_count as u64);
    let vars = [("topic", topic), ("chapter_count", count.as_str())];
    let r = prompts.render("generate_curriculum", &vars);
    proof {
        assert(crate::prompt_registry::vars_view(vars@) =~= seq![
            ("topic"@, topic@),
            ("chapter_count"@, decimal(chapter_count as nat)),
        ]);
    }
    r
}

/// The model service that writes outlines.
#[derive(Debug, Clone, Copy, PartialEq, Eq, Structural)]
pub enum AiProvider {
    Anthropic,
    OpenAi,
}

/// The provider a configured name denotes.
pub open spec fn provider_named(name: Seq<char>) -> Option<AiProvider> {
    if name == "anthropic"@ {
        Some(AiProvider::Anthropic)
    } else if name == "openai"@ {
        Some(AiProvider::OpenAi)
    } else {
        None
    }
}

/// The provider named in the configuration, or the error naming an unknown one.
pub fn provider_of(name: &str) -> (r: Result<AiProvider, Error>)
    ensures
        match provider_named(name@) {
            Some(p) => r == Ok::<AiProvider, Error>(p),
            None => r matches Err(Error::Internal(m)) && m@ == "Unknown AI provider: "@ + name@,
        },
{
    if str_eq(name, "anthropic") {
        Ok(AiProvider::Anthropic)
    } else if str_eq(name, "openai") {
        Ok(AiProvider::OpenAi)
    } else {
        let mut m = String::from_str("Unknown AI provider: ");
        push_str(&mut m, name);
        Err(Error::Internal(m))
    }
}

/// The API key the provider needs, or the error naming the missing setting.
pub fn api_key_for(provider: AiProvider, config: &AppConfig) -> (r: Result<String, Error>)
    ensures
        match provider {
            AiProvider::Anthropic => match config.anthropic_api_key {
                Some(k) => r == Ok::<String, Error>(k),
                None => r matches Err(Error::Internal(m)) && m@ == "ANTHROPIC_API_KEY not set"@,
            },
            AiProvider::OpenAi => match config.openai_api_key {
                Some(k) => r == Ok::<String, Error>(k),
                None => r matches Err(Error::Internal(m)) && m@ == "OPENAI_API_KEY not set"@,
            },
        },
{
    match provider {
        AiProvider::Anthropic => match &config.anthropic_api_key {
            Some(k) => Ok(k.clone()),
            None => Err(Error::Internal(String::from_str("ANTHROPIC_API_KEY not set"))),
        },
        AiProvider::OpenAi => match &config.openai_api_key {
            Some(k) => Ok(k.clone()),
            None => Err(Error::Internal(String::from_str("OPENAI_API_KEY not set"))),
        },
    }
}

} // verus!
