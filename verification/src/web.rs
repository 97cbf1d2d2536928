//! What the curriculum browser asks the services for.
use vstd::prelude::*;

use crate::text::{chars_of, push_str, string_of_range, trim, trim_bounds};

verus! {

broadcast use vstd::string::group_string_axioms;

/// A curriculum being built: its id and title.
#[derive(Debug, Clone)]
pub struct CreateCurriculumResult {
    pub curriculum_id: String,
    pub title: String,
}

/// A curriculum as listed in the browser.
#[derive(Debug, Clone)]
pub struct CurriculumListItem {
    pub id: String,
    pub title: String,
    pub topic: String,
}

/// Where a new curriculum workflow is started.
pub fn workflow_run_url(ingress_url: &str, workflow_id: &str) -> (r: String)
    ensures
        r@ == ingress_url@ + "/CurriculumWorkflow/"@ + workflow_id@ + "/run/send"@,
{
    let mut u = String::from_str(ingress_url);
    push_str(&mut u, "/CurriculumWorkflow/");
    push_str(&mut u, workflow_id);
    push_str(&mut u, "/run/send");
    u
}

/// Where the output of a curriculum workflow is awaited.
pub fn workflow_attach_url(ingress_url: &str, workflow_id: &str) -> (r: String)
    ensures
        r@ == ingress_url@ + "/restate/workflow/CurriculumWorkflow/"@ + workflow_id@ + "/attach"@,
{
    let mut u = String::from_str(ingress_url);
    push_str(&mut u, "/restate/workflow/CurriculumWorkflow/");
    push_str(&mut u, workflow_id);
    push_str(&mut u, "/attach");
    u
}

/// Where the curricula are listed.
pub fn curricula_url(api_url: &str) -> (r: String)
    ensures
        r@ == api_url@ + "/api/curricula"@,
{
    let mut u = String::from_str(api_url);
    push_str(&mut u, "/api/curricula");
    u
}

/// Where one curriculum is read.
pub fn curriculum_url(api_url: &str, id: &str) -> (r: String)
    ensures
        r@ == api_url@ + "/api/curricula/"@ + id@,
{
    let mut u = String::from_str(api_url);
    push_str(&mut u, "/api/curricula/");
    push_str(&mut u, id);
    u
}

/// Where one node is read.
pub fn node_url(api_url: &str, id: &str) -> (r: String)
    ensures
        r@ == api_url@ + "/api/nodes/"@ + id@,
{
    let mut u = String::from_str(api_url);
    push_str(&mut u, "/api/nodes/");
    push_str(&mut u, id);
    u
}

/// A text field of a service's answer, empty when it is missing.
pub fn text_or_empty(field: Option<&str>) -> (r: String)
    ensures
        r@ == (match field {
            Some(t) => t@,
            None => Seq::<char>::empty(),
        }),
{
    match field {
        Some(t) => String::from_str(t),
        None => String::new(),
    }
}

// ─── The home page ─────────────────────────────────────────────────

/// The form on the home page: the topic typed so far, whether a curriculum is being built, and
/// the last failure shown.
#[derive(Debug, Clone)]
pub struct HomeForm {
    pub topic: String,
    pub creating: bool,
    pub error: Option<String>,
}

/// What happens on the home page.
#[derive(Debug)]
pub enum HomeEvent {
    /// The learner edited the topic.
    Typed(String),
    /// The learner pressed Enter or the button.
    Submitted,
    /// The curriculum service answered.
    Created(Result<CreateCurriculumResult, String>),
}

/// What the page does next.
#[derive(Debug, Clone)]
pub enum HomeAction {
    Nothing,
    /// Ask the service to build a curriculum on the (trimmed) topic.
    CreateCurriculum(String),
    /// Open the curriculum with this id.
    ShowCurriculum(String),
}

/// Whether the button is enabled: nothing is being built and the topic is not blank.
pub open spec fn can_submit(form: HomeForm) -> bool {
    !form.creating && trim(form.topic@).len() > 0
}

/// The home page's next form and action after `event`.
pub open spec fn home_next(form: HomeForm, event: HomeEvent) -> (HomeForm, HomeAction) {
    match event {
        HomeEvent::Typed(t) => (HomeForm { topic: t, creating: form.creating, error: form.error }, HomeAction::Nothing),
        HomeEvent::Submitted => (form, HomeAction::Nothing),
        HomeEvent::Created(Ok(r)) => (
            HomeForm { topic: form.topic, creating: false, error: form.error },
            HomeAction::ShowCurriculum(r.curriculum_id),
        ),
        HomeEvent::Created(Err(_)) => (form, HomeAction::Nothing),
    }
}

/// Whether the button is enabled.
pub fn submit_enabled(form: &HomeForm) -> (r: bool)
    ensures
        r == can_submit(*form),
{
    if form.creating {
        return false;
    }
    let v = chars_of(form.topic.as_str());
    let (a, b) = trim_bounds(&v, 0, v.len());
    assert(v@.subrange(0, v@.len() as int) =~= v@);
    b > a
}

/// The home page after `event`: typing edits the topic; submitting a non-blank topic starts
/// building its curriculum (a blank one is ignored); an answer ends the building and either
/// opens the new curriculum or shows why it failed.
pub fn home_step(form: HomeForm, event: HomeEvent) -> (r: (HomeForm, HomeAction))
    ensures
        match event {
            HomeEvent::Submitted => if trim(form.topic@).len() == 0 {
                r.0 == form && r.1 is Nothing
            } else {
                &&& r.0.topic == form.topic
                &&& r.0.creating
                &&& r.0.error is None
                &&& r.1 matches HomeAction::CreateCurriculum(t) && t@ == trim(form.topic@)
            },
            HomeEvent::Created(Err(e)) => {
                &&& r.0.topic == form.topic
                &&& !r.0.creating
                &&& r.0.error matches Some(m) && m@ == "Failed to create curriculum: "@ + e@
                &&& r.1 is Nothing
            },
            _ => r == home_next(form, event),
        },
{
    match event {
        HomeEvent::Typed(t) => (HomeForm { topic: t, creating: form.creating, error: form.error }, HomeAction::Nothing),
        HomeEvent::Submitted => {
            let v = chars_of(form.topic.as_str());
            let (a, b) = trim_bounds(&v, 0, v.len());
            assert(v@.subrange(0, v@.len() as int) =~= v@);
            if b == a {
                (form, HomeAction::Nothing)
            } else {
                let t = string_of_range(&v, a, b);
                (HomeForm { topic: form.topic, creating: true, error: None }, HomeAction::CreateCurriculum(t))
            }
        },
        HomeEvent::Created(Ok(r)) => (
            HomeForm { topic: form.topic, creating: false, error: form.error },
            HomeAction::ShowCurriculum(r.curriculum_id),
        ),
        HomeEvent::Created(Err(e)) => {
            let mut m = String::from_str("Failed to create curriculum: ");
            push_str(&mut m, e.as_str());
            (HomeForm { topic: form.topic, creating: false, error: Some(m) }, HomeAction::Nothing)
        },
    }
}

// ─── Curriculum and node pages ─────────────────────────────────────

/// The message shown when a page's data could not be loaded.
pub fn load_failure_message(what: &str, error: &str) -> (r: String)
    ensures
        r@ == "Failed to load "@ + what@ + ": "@ + error@,
{
    let mut m = String::from_str("Failed to load ");
    push_str(&mut m, what);
    push_str(&mut m, ": ");
    push_str(&mut m, error);
    m
}

/// A title as shown: `Untitled` when the answer has none.
pub fn title_text(title: Option<&str>) -> (r: String)
    ensures
        r@ == (match title {
            Some(t) => t@,
            None => "Untitled"@,
        }),
{
    match title {
        Some(t) => String::from_str(t),
        None => String::from_str("Untitled"),
    }
}

/// A summary or content as shown: only when present and not empty.
pub fn shown_text(text: Option<&str>) -> (r: Option<String>)
    ensures
        match text {
            Some(t) => if t@.len() > 0 {
                r matches Some(s) && s@ == t@
            } else {
                r is None
            },
            None => r is None,
        },
{
    match text {
        Some(t) => if t.unicode_len() > 0 {
            Some(String::from_str(t))
        } else {
            None
        },
        None => None,
    }
}

} // verus!
