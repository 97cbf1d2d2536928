//! Prompt templates by name, with `{{key}}` placeholders.
use vstd::prelude::*;

use crate::domains::ai::agent::lemma_find_bounds;
use crate::error::Error;
use crate::text::{
    chars_eq, chars_of, find, find_exec, lemma_rfind_bounds, push_range, push_str, rfind, rfind_exec,
    pair_views, string_of_range, sub_vec,
};

verus! {

broadcast use vstd::string::group_string_axioms;

/// `s` with every occurrence of `pat` replaced by `rep`, scanning left to right without
/// overlap (what `str::replace` gives).
pub open spec fn replace_all(s: Seq<char>, pat: Seq<char>, rep: Seq<char>) -> Seq<char>
    decreases s.len(),
    when pat.len() > 0
{
    match find(s, pat) {
        Some(i) => {
            proof {
                lemma_find_bounds(s, pat);
            }
            s.take(i) + rep + replace_all(s.skip(i + pat.len()), pat, rep)
        },
        None => s,
    }
}

/// The placeholder for `key`: `{{key}}`.
pub open spec fn placeholder(key: Seq<char>) -> Seq<char> {
    seq!['{', '{'] + key + seq!['}', '}']
}

/// `template` with the placeholders of `vars` filled in, one variable after another.
pub open spec fn fill(template: Seq<char>, vars: Seq<(Seq<char>, Seq<char>)>) -> Seq<char>
    decreases vars.len(),
{
    if vars.len() == 0 {
        template
    } else {
        replace_all(fill(template, vars.drop_last()), placeholder(vars.last().0), vars.last().1)
    }
}

/// The content registered last under `name`.
pub open spec fn lookup(entries: Seq<(Seq<char>, Seq<char>)>, name: Seq<char>) -> Option<Seq<char>>
    decreases entries.len(),
{
    if entries.len() == 0 {
        None
    } else if entries.last().0 == name {
        Some(entries.last().1)
    } else {
        lookup(entries.drop_last(), name)
    }
}

/// The text views of a list of variable bindings.
pub open spec fn vars_view(vars: Seq<(&str, &str)>) -> Seq<(Seq<char>, Seq<char>)> {
    vars.map_values(|p: (&str, &str)| (p.0@, p.1@))
}

/// `s` with every occurrence of `pat` replaced by `rep`.
pub fn replace(s: &str, pat: &Vec<char>, rep: &str) -> (r: String)
    requires
        pat@.len() > 0,
    ensures
        r@ == replace_all(s@, pat@, rep@),
{
    let mut out = String::new();
    let mut rest = chars_of(s);
    loop
        invariant
            pat@.len() > 0,
            replace_all(s@, pat@, rep@) == out@ + replace_all(rest@, pat@, rep@),
        decreases rest@.len(),
    {
        let rlen = rest.len();
        match find_exec(&rest, pat) {
            None => {
                push_range(&mut out, &rest, 0, rlen);
                assert(rest@.subrange(0, rlen as int) =~= rest@);
                return out;
            },
            Some(i) => {
                proof {
                    lemma_find_bounds(rest@, pat@);
                }
                assert(find(rest@, pat@) == Some(i as int));
                let ghost o0 = out@;
                let ghost r0 = rest@;
                push_range(&mut out, &rest, 0, i);
                push_str(&mut out, rep);
                rest = sub_vec(&rest, i + pat.len(), rlen);
                assert(r0.subrange(0, i as int) =~= r0.take(i as int));
                assert(rest@ =~= r0.skip(i + pat@.len()));
                assert(o0 + (r0.take(i as int) + rep@ + replace_all(rest@, pat@, rep@)) =~= out@
                    + replace_all(rest@, pat@, rep@));
            },
        }
    }
}

/// The template name a file in the prompts directory gives: its stem, where its extension is
/// `md` (the extension being what follows the last `.`, unless that `.` opens the name).
pub open spec fn prompt_file_name(file_name: Seq<char>) -> Option<Seq<char>> {
    match rfind(file_name, '.') {
        Some(i) => if i > 0 && file_name.skip(i + 1) == "md"@ {
            Some(file_name.take(i))
        } else {
            None
        },
        None => None,
    }
}

/// The (name, template) pairs that the files of the prompts directory, given as (file name,
/// content) in the order they are read, register: each `.md` file under its stem.
pub open spec fn file_entries(files: Seq<(Seq<char>, Seq<char>)>) -> Seq<(Seq<char>, Seq<char>)>
    decreases files.len(),
{
    if files.len() == 0 {
        Seq::empty()
    } else {
        let rest = file_entries(files.drop_last());
        match prompt_file_name(files.last().0) {
            Some(n) => rest.push((n, files.last().1)),
            None => rest,
        }
    }
}

/// The template name of a file in the prompts directory, if the file holds a template.
pub fn prompt_name(file_name: &str) -> (r: Option<String>)
    ensures
        r.deep_view() == prompt_file_name(file_name@),
{
    let v = chars_of(file_name);
    let n = v.len();
    match rfind_exec(&v, '.') {
        Some(i) => {
            proof {
                lemma_rfind_bounds(v@, '.');
            }
            let ext = sub_vec(&v, i + 1, n);
            assert(ext@ =~= v@.skip(i + 1));
            let md = chars_of("md");
            if i > 0 && chars_eq(&ext, &md) {
                let stem = string_of_range(&v, 0, i);
                assert(stem@ =~= v@.take(i as int));
                Some(stem)
            } else {
                None
            }
        },
        None => None,
    }
}

/// Prompt templates, each registered under the name of the file it came from.
#[derive(Debug, Clone)]
pub struct PromptRegistry {
    prompts: Vec<(String, String)>,
}

impl PromptRegistry {
    /// The (name, template) pairs in the order they were registered.
    pub closed spec fn entries(&self) -> Seq<(Seq<char>, Seq<char>)> {
        self.prompts.deep_view()
    }

    /// The template registered under `name`.
    pub open spec fn template(&self, name: Seq<char>) -> Option<Seq<char>> {
        lookup(self.entries(), name)
    }

    /// A registry of the given (name, template) pairs; a later pair replaces an earlier one of
    /// the same name.
    pub fn new(prompts: Vec<(String, String)>) -> (r: PromptRegistry)
        ensures
            r.entries() == prompts.deep_view(),
    {
        PromptRegistry { prompts }
    }

    /// The registry of the template files read from the prompts directory, given as (file
    /// name, content): every `.md` file is registered under its stem.
    pub fn from_files(files: Vec<(String, String)>) -> (r: PromptRegistry)
        ensures
            r.entries() == file_entries(pair_views(files@)),
    {
        let ghost fv = pair_views(files@);
        let mut prompts: Vec<(String, String)> = Vec::new();
        let n = files.len();
        let mut i: usize = 0;
        assert(fv.take(0) =~= Seq::<(Seq<char>, Seq<char>)>::empty());
        while i < n
            invariant
                i <= n,
                n == files@.len(),
                fv == pair_views(files@),
                prompts.deep_view() == file_entries(fv.take(i as int)),
            decreases n - i,
        {
            assert(fv[i as int] == (files@[i as int].0@, files@[i as int].1@));
            assert(fv.take(i + 1).drop_last() =~= fv.take(i as int));
            assert(fv.take(i + 1).last() == fv[i as int]);
            let ghost before = prompts.deep_view();
            match prompt_name(files[i].0.as_str()) {
                Some(stem) => {
                    let content = files[i].1.clone();
                    let ghost sv = stem@;
                    let ghost cv = content@;
                    prompts.push((stem, content));
                    assert(prompts.deep_view() =~= before.push((sv, cv)));
                },
                None => {},
            }
            i = i + 1;
        }
        assert(fv.take(n as int) =~= fv);
        PromptRegistry { prompts }
    }

    /// The template registered under `name`, or the error naming the missing template.
    pub fn get(&self, name: &str) -> (r: Result<&str, Error>)
        ensures
            match self.template(name@) {
                Some(t) => r matches Ok(s) && s@ == t,
                None => r matches Err(Error::Internal(m)) && m@ == "Prompt template not found: "@
                    + name@,
            },
    {
        let ghost es = self.prompts.deep_view();
        let n = chars_of(name);
        let mut k = self.prompts.len();
        assert(es.len() == k);
        assert(es.take(k as int) =~= es);
        while k > 0
            invariant
                k <= self.prompts@.len(),
                es == self.prompts.deep_view(),
                n@ == name@,
                lookup(es, name@) == lookup(es.take(k as int), name@),
            decreases k,
        {
            assert(es.take(k as int).drop_last() =~= es.take(k - 1));
            assert(es.take(k as int).last() == (self.prompts@[k - 1].0@, self.prompts@[k - 1].1@));
            let entry = &self.prompts[k - 1];
            let key = chars_of(entry.0.as_str());
            if chars_eq(&key, &n) {
                return Ok(self.prompts[k - 1].1.as_str());
            }
            k = k - 1;
        }
        assert(es.take(0) =~= Seq::<(Seq<char>, Seq<char>)>::empty());
        let mut m = String::from_str("Prompt template not found: ");
        push_str(&mut m, name);
        Err(Error::Internal(m))
    }

    /// The template registered under `name` with the placeholders `{{key}}` of `vars` filled in,
    /// in order.
    pub fn render(&self, name: &str, vars: &[(&str, &str)]) -> (r: Result<String, Error>)
        ensures
            match self.template(name@) {
                Some(t) => r matches Ok(s) && s@ == fill(t, vars_view(vars@)),
                None => r matches Err(Error::Internal(m)) && m@ == "Prompt template not found: "@
                    + name@,
            },
    {
        let ghost vv = vars_view(vars@);
        let template = match self.get(name) {
            Ok(t) => t,
            Err(e) => return Err(e),
        };
        let mut out = String::from_str(template);
        let mut i: usize = 0;
        while i < vars.len()
            invariant
                i <= vars@.len(),
                vv == vars_view(vars@),
                self.template(name@) matches Some(t) && out@ == fill(t, vv.take(i as int)),
            decreases vars.len() - i,
        {
            let (key, value) = vars[i];
            let mut pat = String::from_str("{{");
            push_str(&mut pat, key);
            push_str(&mut pat, "}}");
            proof {
                reveal_strlit("{{");
                reveal_strlit("}}");
            }
            let pat_chars = chars_of(pat.as_str());
            assert(pat_chars@ =~= placeholder(key@));
            assert(vv.take(i + 1).drop_last() =~= vv.take(i as int));
            assert(vv.take(i + 1).last() == (key@, value@));
            out = replace(out.as_str(), &pat_chars, value);
            i = i + 1;
        }
        assert(vv.take(i as int) =~= vv);
        Ok(out)
    }
}

// ─── Laws ──────────────────────────────────────────────────────────

/// A template without the pattern is left as it is.
pub proof fn lemma_replace_absent(s: Seq<char>, pat: Seq<char>, rep: Seq<char>)
    requires
        pat.len() > 0,
        find(s, pat) is None,
    ensures
        replace_all(s, pat, rep) == s,
{
}

/// Rendering with no variables gives the template itself.
pub proof fn lemma_fill_no_vars(template: Seq<char>)
    ensures
        fill(template, seq![]) == template,
{
}

/// A name registered last with some template is looked up to that template.
pub proof fn lemma_lookup_last(entries: Seq<(Seq<char>, Seq<char>)>, name: Seq<char>, t: Seq<char>)
    ensures
        lookup(entries.push((name, t)), name) == Some(t),
{
}

/// Registering another name leaves a lookup unchanged.
pub proof fn lemma_lookup_other(
    entries: Seq<(Seq<char>, Seq<char>)>,
    name: Seq<char>,
    other: Seq<char>,
    t: Seq<char>,
)
    requires
        name != other,
    ensures
        lookup(entries.push((other, t)), name) == lookup(entries, name),
{
    assert(entries.push((other, t)).drop_last() =~= entries);
}

/// A file that gives a template is named after it: the template name, then `.md`.
proof fn lemma_prompt_file_name(file_name: Seq<char>)
    ensures
        prompt_file_name(file_name) matches Some(n) ==> file_name == n + seq!['.', 'm', 'd'],
{
    reveal_strlit("md");
    crate::text::lemma_rfind_bounds(file_name, '.');
    if let Some(n) = prompt_file_name(file_name) {
        let i = rfind(file_name, '.')->0;
        assert(file_name.skip(i + 1) =~= seq!['m', 'd']);
        assert(file_name =~= n + seq!['.', 'm', 'd']);
    }
}

/// Each template name is given by at most one of a set of distinct file names.
proof fn lemma_one_file_per_name(a: Seq<char>, b: Seq<char>)
    requires
        prompt_file_name(a) is Some,
        prompt_file_name(a) == prompt_file_name(b),
    ensures
        a == b,
{
    lemma_prompt_file_name(a);
    lemma_prompt_file_name(b);
}

/// Of files with distinct names, the template registered under `name` is the content of the
/// `.md` file with that stem.
pub proof fn lemma_template_of_file(files: Seq<(Seq<char>, Seq<char>)>, i: int)
    requires
        0 <= i < files.len(),
        forall|j: int, k: int| 0 <= j < k < files.len() ==> files[j].0 != files[k].0,
        prompt_file_name(files[i].0) is Some,
    ensures
        lookup(file_entries(files), prompt_file_name(files[i].0)->0) == Some(files[i].1),
    decreases files.len(),
{
    let name = prompt_file_name(files[i].0)->0;
    let rest = files.drop_last();
    let last = files.last();
    if i == files.len() - 1 {
        assert(file_entries(files) == file_entries(rest).push((name, last.1)));
    } else {
        assert(rest[i] == files[i]);
        lemma_template_of_file(rest, i);
        match prompt_file_name(last.0) {
            Some(m) => {
                if m == name {
                    lemma_one_file_per_name(files[i].0, last.0);
                    assert(false);
                }
                lemma_lookup_other(file_entries(rest), name, m, last.1);
            },
            None => {},
        }
    }
}

/// Of the files read, no template is registered under a name that no `.md` file has as stem.
pub proof fn lemma_no_file_no_template(files: Seq<(Seq<char>, Seq<char>)>, name: Seq<char>)
    requires
        forall|j: int| 0 <= j < files.len() ==> prompt_file_name(#[trigger] files[j].0) != Some(name),
    ensures
        lookup(file_entries(files), name) is None,
    decreases files.len(),
{
    if files.len() > 0 {
        let rest = files.drop_last();
        assert forall|j: int| 0 <= j < rest.len() implies prompt_file_name(#[trigger] rest[j].0) != Some(name) by {
            assert(rest[j] == files[j]);
        }
        lemma_no_file_no_template(rest, name);
        let last = files.last();
        assert(prompt_file_name(files[files.len() - 1].0) != Some(name));
        match prompt_file_name(last.0) {
            Some(m) => {
                lemma_lookup_other(file_entries(rest), name, m, last.1);
            },
            None => {},
        }
    }
}

} // verus!
