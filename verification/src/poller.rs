//! The browser side's poll loop: what to do with each answer of the config
//! endpoint. The first good answer is rendered; later ones update the page in
//! place. A failure is shown only while nothing has been rendered yet; later
//! failures are ignored until the next poll.

use vstd::prelude::*;
use crate::dashboard::{is_success_status, status_is_success};

verus! {

/// What `reqwest::StatusCode` displays for a status code: the code and its
/// canonical reason, such as `404 Not Found`.
pub uninterp spec fn status_line(code: u16) -> Seq<char>;

/// Builds a `reqwest::StatusCode` with `StatusCode::from_u16` (which accepts
/// 100 to 999) and formats it with its `Display` impl; the text is a function
/// of the code alone, named `status_line`.
#[verifier::external_body]
fn status_text(code: u16) -> (s: String)
    requires
        100 <= code <= 999,
    ensures
        s@ == status_line(code),
{
    match reqwest::StatusCode::from_u16(code) {
        Ok(status) => format!("{}", status),
        Err(_) => String::new(),
    }
}

/// The error for an answer of the config endpoint that is not a success.
pub open spec fn http_error_text(code: u16) -> Seq<char> {
    "HTTP Error: "@ + status_line(code)
}

/// Checks the status of the config endpoint's answer: `Ok` for a success,
/// otherwise the error to report.
pub fn check_config_status(code: u16) -> (r: Result<(), String>)
    requires
        100 <= code <= 999,
    ensures
        r is Ok <==> is_success_status(code),
        r matches Err(e) ==> e@ == http_error_text(code),
{
    if status_is_success(code) {
        Ok(())
    } else {
        let mut e = String::from_str("HTTP Error: ");
        let line = status_text(code);
        e.append(line.as_str());
        Err(e)
    }
}

/// What the page does after a poll.
pub enum PollAction {
    /// Build the dashboard from this config text and show it.
    Render(String),
    /// Update the dashboard already shown with this config text.
    Update(String),
    /// Show this message in place of the dashboard.
    ShowError(String),
    /// Do nothing until the next poll.
    Wait,
}

/// The message shown when the first load fails.
pub open spec fn load_error_html(err: Seq<char>) -> Seq<char> {
    "<div style='color: red;'>Failed to load dashboard: "@ + err + "</div>"@
}

/// The poll loop's state: whether the dashboard still has to be rendered.
pub struct DashboardPoller {
    pub is_first_render: bool,
}

/// The kinds of action, for reasoning about runs of polls.
pub enum PollKind {
    Render,
    Update,
    ShowError,
    Wait,
}

/// The kind of action a poll leads to, from the state and whether the fetch
/// succeeded.
pub open spec fn poll_kind(first: bool, fetched_ok: bool) -> PollKind {
    if fetched_ok {
        if first {
            PollKind::Render
        } else {
            PollKind::Update
        }
    } else if first {
        PollKind::ShowError
    } else {
        PollKind::Wait
    }
}

/// The state after a poll.
pub open spec fn poll_next(first: bool, fetched_ok: bool) -> bool {
    first && !fetched_ok
}

/// The action `a` is of kind `k`.
pub open spec fn action_kind(a: PollAction) -> PollKind {
    match a {
        PollAction::Render(_) => PollKind::Render,
        PollAction::Update(_) => PollKind::Update,
        PollAction::ShowError(_) => PollKind::ShowError,
        PollAction::Wait => PollKind::Wait,
    }
}

impl DashboardPoller {
    /// Nothing has been rendered yet.
    pub fn new() -> (p: DashboardPoller)
        ensures
            p.is_first_render,
    {
        DashboardPoller { is_first_render: true }
    }

    /// Decides what to do with the result of fetching the config: the
    /// config text, or the text of the error.
    pub fn on_fetch(&mut self, fetched: Result<String, String>) -> (a: PollAction)
        ensures
            action_kind(a) == poll_kind(old(self).is_first_render, fetched is Ok),
            final(self).is_first_render == poll_next(old(self).is_first_render, fetched is Ok),
            fetched matches Ok(j) ==> (a matches PollAction::Render(x) && x == j) || (a matches PollAction::Update(x) && x == j),
            fetched matches Err(e) ==> (a matches PollAction::ShowError(h) ==> h@ == load_error_html(e@)),
    {
        match fetched {
            Ok(json) => {
                if self.is_first_render {
                    self.is_first_render = false;
                    PollAction::Render(json)
                } else {
                    PollAction::Update(json)
                }
            },
            Err(err) => {
                if self.is_first_render {
                    let mut html = String::from_str("<div style='color: red;'>Failed to load dashboard: ");
                    html.append(err.as_str());
                    html.append("</div>");
                    PollAction::ShowError(html)
                } else {
                    PollAction::Wait
                }
            },
        }
    }
}

/// The number of renders in a run of polls that starts in state `first`,
/// with `outcomes[i]` telling whether the i-th fetch succeeded.
pub open spec fn renders_in_run(first: bool, outcomes: Seq<bool>) -> nat
    decreases outcomes.len(),
{
    if outcomes.len() == 0 {
        0
    } else {
        (if poll_kind(first, outcomes[0]) == PollKind::Render { 1nat } else { 0nat })
            + renders_in_run(poll_next(first, outcomes[0]), outcomes.drop_first())
    }
}

/// The state after a run of polls.
pub open spec fn state_after_run(first: bool, outcomes: Seq<bool>) -> bool
    decreases outcomes.len(),
{
    if outcomes.len() == 0 {
        first
    } else {
        state_after_run(poll_next(first, outcomes[0]), outcomes.drop_first())
    }
}

/// Law: once the dashboard is rendered, no poll renders it again or shows an
/// error; a failed poll leaves the state as it was.
pub proof fn law_after_render_only_updates(fetched_ok: bool)
    ensures
        poll_kind(false, fetched_ok) == PollKind::Update || poll_kind(false, fetched_ok)
            == PollKind::Wait,
        !poll_next(false, fetched_ok),
        poll_next(true, false),
{
}

/// Law: in any run of polls starting from a fresh page the dashboard is
/// rendered exactly once if some fetch succeeds and never otherwise, and the
/// page stays waiting for its first render exactly while every fetch failed.
pub proof fn law_render_once(outcomes: Seq<bool>)
    ensures
        renders_in_run(true, outcomes) == (if outcomes.contains(true) { 1nat } else { 0nat }),
        state_after_run(true, outcomes) == !outcomes.contains(true),
        renders_in_run(false, outcomes) == 0,
        !state_after_run(false, outcomes),
    decreases outcomes.len(),
{
    if outcomes.len() > 0 {
        let rest = outcomes.drop_first();
        law_render_once(rest);
        if outcomes[0] {
            assert(outcomes.contains(true));
        } else {
            assert(outcomes.contains(true) == rest.contains(true)) by {
                if outcomes.contains(true) {
                    let i = choose|i: int| 0 <= i < outcomes.len() && outcomes[i] == true;
                    assert(rest[i - 1] == true);
                }
                if rest.contains(true) {
                    let i = choose|i: int| 0 <= i < rest.len() && rest[i] == true;
                    assert(outcomes[i + 1] == true);
                }
            }
        }
    }
}

/// Whether some fetch before poll `j` succeeded.
pub open spec fn succeeded_before(outcomes: Seq<bool>, j: int) -> bool {
    exists|i: int| 0 <= i < j && outcomes[i]
}

/// The state in which poll `j` of a run from a fresh page finds the loop.
pub open spec fn state_before_poll(outcomes: Seq<bool>, j: int) -> bool {
    state_after_run(true, outcomes.take(j))
}

/// Law: in a run of polls from a fresh page, poll `j` renders exactly when
/// its fetch is the first that succeeds, updates for every later success,
/// shows the error for a failure while no fetch has succeeded yet, and waits
/// for a failure after that. By `on_fetch`, the render and each update carry
/// the text of their own fetch.
pub proof fn law_poll_in_run(outcomes: Seq<bool>, j: int)
    requires
        0 <= j < outcomes.len(),
    ensures
        state_before_poll(outcomes, j) == !succeeded_before(outcomes, j),
        poll_kind(state_before_poll(outcomes, j), outcomes[j]) == (if outcomes[j] {
            if succeeded_before(outcomes, j) {
                PollKind::Update
            } else {
                PollKind::Render
            }
        } else if succeeded_before(outcomes, j) {
            PollKind::Wait
        } else {
            PollKind::ShowError
        }),
{
    let prefix = outcomes.take(j);
    law_render_once(prefix);
    if prefix.contains(true) {
        let i = choose|i: int| 0 <= i < prefix.len() && prefix[i] == true;
        assert(outcomes[i]);
    }
    if succeeded_before(outcomes, j) {
        let i = choose|i: int| 0 <= i < j && outcomes[i];
        assert(prefix[i]);
    }
}

} // verus!
