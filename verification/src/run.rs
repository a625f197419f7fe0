//! `bot-harness run`: one ACP session, from spawning the agent to its
//! result, recorded as it goes.
//!
//! The harness is not a sandbox. The only boundary between it and the
//! agent is the wrapper command (`bot-harness run ... -- WRAPPER`), which
//! agent.yml sets to run the agent as another user in its own slice.
//! Without a wrapper, the agent runs as the harness's user and inherits
//! its environment, which is only fit for local testing.
//!
//! When the session ends, the SDK kills the process group it spawned: the
//! wrapper's, or the agent's without one. Processes the agent started in
//! their own group (some agents' shell commands), or under a wrapper
//! that starts it elsewhere (systemd-run), may outlive it: stopping those
//! is the sandbox's job (agent.yml's `agent.slice`, later a container).

use crate::digest::{
    fed, flushed, log_of, new_digest, option_kind, permission_noted, Digest, DigestView, Dir, Log,
};
use crate::invariants::{is_log_line, is_one_line, law_last_line_stays_on_its_line};
use crate::json::{
    at, items_of, json_parse, lemma_at_put, opt_json, put, str_of, Fields, Json, JsonView,
};
use crate::moment::{is_plain_moment, rfc3339_text, seconds_from, Moment};
use crate::policy::{
    decided, decision_text, is_request, law_options_are_picked_by_kind, law_request_is_one,
    lemma_option_is_offered, offers_first, offers_none, option_of, pick_option, picked, Decision,
    Policy, PolicyView, Request, RequestView, META_KEY,
};
use crate::text::{
    copy_opt, cut, cut_text, decimal, law_cut_is_one_line, number, same, MAX_TEXT,
};
use crate::views::{opt_str, opt_view, views, views_empty, views_push};
use vstd::prelude::*;

verus! {

broadcast use {views_push, views_empty};

/// The files `run` writes to its output directory.
pub const ACP_LOG: &'static str = "acp.jsonl";

pub const STDERR_LOG: &'static str = "agent-stderr.log";

pub const RESULT_FILE: &'static str = "harness.json";

pub const RESULT_SCHEMA: &'static str = "bot-harness-result/v1";

/// How long the agent gets to wind down after `session/cancel`, in seconds.
pub const CANCEL_GRACE_S: u64 = 30;

pub const CLIENT_NAME: &'static str = "bot-harness";

/// Exit statuses of `bot-harness run`, by result.
pub const EXIT_FAILURE: i32 = 1;

pub const EXIT_BUDGET: i32 = 3;

/// As timeout(1).
pub const EXIT_TIMEOUT: i32 = 124;

#[derive(Debug, Clone, Copy, PartialEq, Eq, Structural)]
pub enum Outcome {
    Success,
    Failure,
    Timeout,
    Budget,
    Cancelled,
}

/// What an outcome is called.
pub open spec fn outcome_text(o: Outcome) -> Seq<char> {
    match o {
        Outcome::Success => "success"@,
        Outcome::Failure => "failure"@,
        Outcome::Timeout => "timeout"@,
        Outcome::Budget => "budget"@,
        Outcome::Cancelled => "cancelled"@,
    }
}

/// The exit status of an outcome.
pub open spec fn exit_status_of(o: Outcome) -> i32 {
    match o {
        Outcome::Success => 0,
        Outcome::Timeout => EXIT_TIMEOUT,
        Outcome::Budget => EXIT_BUDGET,
        Outcome::Failure => EXIT_FAILURE,
        Outcome::Cancelled => EXIT_FAILURE,
    }
}

impl Outcome {
    pub fn as_str(self) -> (r: &'static str)
        ensures
            r@ == outcome_text(self),
    {
        match self {
            Outcome::Success => "success",
            Outcome::Failure => "failure",
            Outcome::Timeout => "timeout",
            Outcome::Budget => "budget",
            Outcome::Cancelled => "cancelled",
        }
    }

    pub fn exit_code(self) -> (r: i32)
        ensures
            r == exit_status_of(self),
    {
        match self {
            Outcome::Success => 0,
            Outcome::Timeout => EXIT_TIMEOUT,
            Outcome::Budget => EXIT_BUDGET,
            Outcome::Failure | Outcome::Cancelled => EXIT_FAILURE,
        }
    }
}

/// Only a success exits with 0; a timeout, a spent budget and a failure are
/// told apart by their exit statuses.
pub proof fn law_exit_statuses_tell(a: Outcome, b: Outcome)
    ensures
        exit_status_of(a) == 0 <==> a == Outcome::Success,
        exit_status_of(a) == exit_status_of(b) ==> a == b || (exit_status_of(a) == EXIT_FAILURE),
        0 <= exit_status_of(a) < 256,
{
}

#[derive(Debug, Clone, Copy)]
pub struct Limits {
    pub timeout_s: u64,
    /// In AIC (1 AIC = $0.01), from the agent's `usage_update` cost: the
    /// bits of a double.
    pub budget_aic: Option<u64>,
    /// ACP reports tool calls, not model turns, so this is the turn budget.
    pub max_tool_calls: Option<usize>,
}

/// `harness.json`: what `run` did, for `bot-harness summary`.
#[derive(Debug)]
pub struct RunResult {
    pub schema: String,
    pub agent: String,
    pub command: Vec<String>,
    pub result: Outcome,
    pub stop_reason: Option<String>,
    pub message: Option<String>,
    pub started_at: String,
    pub finished_at: String,
    pub duration_s: u64,
    pub limits: Limits,
}

/// What a result holds.
#[verifier::ext_equal]
pub struct RunResultView {
    pub schema: Seq<char>,
    pub agent: Seq<char>,
    pub command: Seq<Seq<char>>,
    pub result: Outcome,
    pub stop_reason: Option<Seq<char>>,
    pub message: Option<Seq<char>>,
    pub started_at: Seq<char>,
    pub finished_at: Seq<char>,
    pub duration_s: u64,
    pub limits: Limits,
}

impl View for RunResult {
    type V = RunResultView;

    open spec fn view(&self) -> RunResultView {
        RunResultView {
            schema: self.schema@,
            agent: self.agent@,
            command: views(self.command@),
            result: self.result,
            stop_reason: opt_view(self.stop_reason),
            message: opt_view(self.message),
            started_at: self.started_at@,
            finished_at: self.finished_at@,
            duration_s: self.duration_s,
            limits: self.limits,
        }
    }
}

// ---- The transcript ----------------------------------------------------

/// One line of `acp.jsonl`: a JSON-RPC message as it crossed the pipe,
/// parsed (so re-serialized, with its keys in order), or the raw line if
/// it wasn't JSON.
#[derive(Debug)]
pub struct Record {
    /// The seconds since 1970-01-01T00:00:00Z: the bits of a double.
    pub ts: u64,
    pub dir: Dir,
    pub msg: Option<Json>,
    pub line: Option<String>,
}

/// What a record holds.
#[verifier::ext_equal]
pub struct RecordView {
    pub ts: u64,
    pub dir: Dir,
    pub msg: Option<JsonView>,
    pub line: Option<Seq<char>>,
}

impl View for Record {
    type V = RecordView;

    open spec fn view(&self) -> RecordView {
        RecordView {
            ts: self.ts,
            dir: self.dir,
            msg: match self.msg {
                Some(m) => Some(m@),
                None => None,
            },
            line: opt_view(self.line),
        }
    }
}

/// The record of a line on the agent's stdin or stdout.
pub open spec fn record_of(ts: u64, dir: Dir, line: Seq<char>) -> RecordView {
    let msg = json_parse(line);
    RecordView {
        ts,
        dir,
        msg,
        line: if msg is None {
            Some(line)
        } else {
            None
        },
    }
}

impl Record {
    /// The record of LINE, which went DIR at the time TS.
    pub fn new(ts: u64, dir: Dir, line: &str) -> (r: Record)
        ensures
            r@ == record_of(ts, dir, line@),
    {
        match Json::parse(line) {
            Some(m) => Record { ts, dir, msg: Some(m), line: None },
            None => Record { ts, dir, msg: None, line: Some(line.to_owned()) },
        }
    }
}

/// Every line is recorded, as a message or as it was.
pub proof fn law_every_line_is_recorded(ts: u64, dir: Dir, line: Seq<char>)
    ensures
        ({
            let r = record_of(ts, dir, line);
            &&& r.msg is Some <==> r.line is None
            &&& r.line is Some ==> r.line == Some(line)
            &&& r.msg == json_parse(line)
        }),
{
}

/// The session after a record.
pub open spec fn after_record(l: Log, r: RecordView, elapsed_s: u64) -> Log {
    match r.msg {
        Some(msg) => fed(l, r.ts, elapsed_s, r.dir, msg),
        None => l,
    }
}

/// Why the harness stopped the session.
#[derive(Debug)]
pub enum Stop {
    Timeout,
    Budget(String),
}

/// Why the harness stopped the session.
pub enum StopView {
    Timeout,
    Budget(Seq<char>),
}

impl View for Stop {
    type V = StopView;

    open spec fn view(&self) -> StopView {
        match self {
            Stop::Timeout => StopView::Timeout,
            Stop::Budget(m) => StopView::Budget(m@),
        }
    }
}

/// The reason of an optional stop.
pub open spec fn opt_stop(o: Option<Stop>) -> Option<StopView> {
    match o {
        Some(s) => Some(s@),
        None => None,
    }
}

impl Stop {
    /// The same reason again.
    pub fn copy(&self) -> (r: Stop)
        ensures
            r@ == self@,
    {
        match self {
            Stop::Timeout => Stop::Timeout,
            Stop::Budget(m) => Stop::Budget(m.clone()),
        }
    }
}

/// The first reason to stop counts.
pub open spec fn first_stop(before: Option<StopView>, why: StopView) -> Option<StopView> {
    if before is Some {
        before
    } else {
        Some(why)
    }
}

/// Stops the session, unless it was stopped before; returns whether it
/// wasn't.
pub fn stop_once(stop: &mut Option<Stop>, why: Stop) -> (r: bool)
    ensures
        opt_stop(*final(stop)) == first_stop(opt_stop(*old(stop)), why@),
        r == (*old(stop) is None),
{
    if stop.is_some() {
        return false;
    }
    *stop = Some(why);
    true
}

/// Whether a session is over its budget: too many tool calls, or OVERSPENT,
/// which says how much more was spent than it may cost.
pub open spec fn over_budget_of(
    calls: nat,
    max_tool_calls: Option<usize>,
    overspent: Option<Seq<char>>,
) -> Option<StopView> {
    if max_tool_calls is Some && calls > max_tool_calls->0 {
        Some(
            StopView::Budget("more than "@ + decimal(max_tool_calls->0 as nat) + " tool calls"@),
        )
    } else if overspent is Some {
        Some(StopView::Budget(overspent->0))
    } else {
        None
    }
}

/// A session is over its budget just where it made too many tool calls or
/// cost too much.
pub proof fn law_only_overruns_stop(
    calls: nat,
    max_tool_calls: Option<usize>,
    overspent: Option<Seq<char>>,
)
    ensures
        over_budget_of(calls, max_tool_calls, overspent) is Some <==> (max_tool_calls is Some
            && calls > max_tool_calls->0) || overspent is Some,
        over_budget_of(calls, max_tool_calls, overspent) is Some ==> over_budget_of(
            calls,
            max_tool_calls,
            overspent,
        )->0 is Budget,
{
}

/// Sees every line on the agent's stdio: records it, feeds the digest
/// (which gives the condensed log) and checks the budget.
#[derive(Debug)]
pub struct Tap {
    pub digest: Digest,
    /// The first write error; the run fails with it.
    pub error: Option<String>,
    pub limits: Limits,
}

/// What the run says of a write error.
pub open spec fn write_error_text(e: Seq<char>) -> Seq<char> {
    "writing the transcript: "@ + e
}

impl Tap {
    pub fn create(limits: Limits) -> (r: Tap)
        ensures
            r.digest@ == new_digest(),
            r.error is None,
            r.limits == limits,
    {
        Tap { digest: Digest::new(), error: None, limits }
    }

    /// Notes that a line could not be written: E says why.
    pub fn note(&mut self, e: &str)
        ensures
            final(self).digest == old(self).digest,
            final(self).limits == old(self).limits,
            opt_view(final(self).error) == if old(self).error is Some {
                opt_view(old(self).error)
            } else {
                Some(write_error_text(e@))
            },
    {
        if self.error.is_none() {
            let mut s = "writing the transcript: ".to_owned();
            s.append(e);
            self.error = Some(s);
        }
    }

    /// A record of a line on the agent's stdin or stdout: the log lines
    /// that it produced. ELAPSED_S is how many whole seconds before it the
    /// call that it is about `started`.
    pub fn line(&mut self, record: &Record, elapsed_s: u64) -> (out: Vec<String>)
        requires
            old(self).digest.allowed < u64::MAX,
        ensures
            log_of(final(self).digest, out) == after_record(
                Log { d: old(self).digest@, out: Seq::empty() },
                record@,
                elapsed_s,
            ),
            final(self).error == old(self).error,
            final(self).limits == old(self).limits,
    {
        match &record.msg {
            Some(msg) => self.digest.feed(record.ts, elapsed_s, record.dir, msg),
            None => {
                let out: Vec<String> = Vec::new();
                assert(views(out@) =~= Seq::<Seq<char>>::empty());
                out
            },
        }
    }

    /// Why the session must stop: it is over budget. OVERSPENT says how much
    /// more was spent than it may cost.
    pub fn over_budget(&self, overspent: Option<&str>) -> (r: Option<Stop>)
        ensures
            opt_stop(r) == over_budget_of(
                self.digest@.calls.len(),
                self.limits.max_tool_calls,
                opt_str(overspent),
            ),
    {
        if let Some(max) = self.limits.max_tool_calls {
            if self.digest.calls.len() > max {
                let mut s = "more than ".to_owned();
                s.append(number(max as u64).as_str());
                s.append(" tool calls");
                return Some(Stop::Budget(s));
            }
        }
        match overspent {
            Some(m) => Some(Stop::Budget(m.to_owned())),
            None => None,
        }
    }
}

// ---- Answering the agent -----------------------------------------------

/// The answer to a permission request: the option selected (none: the
/// request is cancelled), and the `_meta` that says why.
#[derive(Debug)]
pub struct PermissionAnswer {
    pub selected: Option<String>,
    pub meta: Json,
}

/// What an answer says.
#[verifier::ext_equal]
pub struct AnswerView {
    pub selected: Option<Seq<char>>,
    pub meta: JsonView,
}

impl View for PermissionAnswer {
    type V = AnswerView;

    open spec fn view(&self) -> AnswerView {
        AnswerView { selected: opt_view(self.selected), meta: self.meta@ }
    }
}

/// The `_meta` of an answer: the decision, and the rule that made it.
pub open spec fn answer_meta(decision: Seq<char>, rule: Option<Seq<char>>) -> JsonView {
    JsonView::Object(
        put(
            Seq::empty(),
            META_KEY@,
            JsonView::Object(
                put(
                    put(Seq::empty(), "decision"@, JsonView::Str(decision)),
                    "rule"@,
                    opt_json(rule),
                ),
            ),
        ),
    )
}

/// The answer to the permission request REQ with these OPTIONS.
pub open spec fn answered(
    policy: PolicyView,
    req: RequestView,
    options: JsonView,
    stopped: bool,
) -> AnswerView {
    let verdict = decided(policy, req);
    let pick = if stopped {
        None
    } else {
        picked(options, verdict.decision)
    };
    match pick {
        Some((id, d)) => AnswerView {
            selected: Some(id),
            meta: answer_meta(decision_text(d), verdict.rule),
        },
        None => AnswerView { selected: None, meta: answer_meta("cancelled"@, verdict.rule) },
    }
}

/// Answers a permission request from the policy; once the harness has
/// stopped the session (STOPPED), every request is cancelled, as ACP
/// requires after session/cancel.
pub fn answer_permission(policy: &Policy, cwd: &str, params: &Json, stopped: bool) -> (r:
    PermissionAnswer)
    ensures
        exists|req: RequestView| #[trigger] is_request(req, params@, cwd@),
        forall|req: RequestView| #[trigger]
            is_request(req, params@, cwd@) ==> r@ == answered(
                policy@,
                req,
                at(params@, "options"@),
                stopped,
            ),
{
    let req = Request::from_params(params, cwd);
    let verdict = policy.decide(&req);
    let pick = if stopped {
        None
    } else {
        pick_option(params.at("options"), verdict.decision)
    };
    let decision: &str = match &pick {
        Some((_, d)) => d.as_str(),
        // Stopped, no option for the decision, or a malformed request.
        None => "cancelled",
    };
    let why = Fields::new().with("decision", Json::text(decision)).with(
        "rule",
        Json::opt_text(&verdict.rule),
    );
    let meta = Json::Object(Fields::new().with(META_KEY, Json::Object(why)));
    let selected: Option<String> = match pick {
        Some((id, _)) => Some(id),
        None => None,
    };
    let r = PermissionAnswer { selected, meta };
    proof {
        assert(r@ =~= answered(policy@, req@, at(params@, "options"@), stopped));
        assert forall|other: RequestView| #[trigger] is_request(other, params@, cwd@) implies r@
            == answered(policy@, other, at(params@, "options"@), stopped) by {
            law_request_is_one(req@, other, params@, cwd@);
        }
    }
    r
}

/// Once the session is stopped, no permission request is granted.
pub proof fn law_stopped_sessions_get_no_permission(
    policy: PolicyView,
    req: RequestView,
    options: JsonView,
)
    ensures
        answered(policy, req, options, true).selected is None,
{
}

/// Every answer records its decision and the rule that made it. The decision
/// is to allow only where the policy allows, and to cancel just where no
/// option is selected.
pub proof fn law_decisions_are_recorded(
    policy: PolicyView,
    req: RequestView,
    options: JsonView,
    stopped: bool,
)
    ensures
        ({
            let a = answered(policy, req, options, stopped);
            let verdict = decided(policy, req);
            let recorded = at(a.meta, META_KEY@);
            &&& at(recorded, "rule"@) == opt_json(verdict.rule)
            &&& str_of(at(recorded, "decision"@)) is Some
            &&& str_of(at(recorded, "decision"@)) == Some("allow"@) ==> verdict.decision
                == Decision::Allow
            &&& str_of(at(recorded, "decision"@)) == Some("cancelled"@) <==> a.selected is None
        }),
{
    broadcast use lemma_at_put;

    reveal_strlit("decision");
    reveal_strlit("rule");
    assert("decision"@.len() == 8 && "rule"@.len() == 4);
    reveal_strlit("allow");
    reveal_strlit("deny");
    reveal_strlit("cancelled");
    assert("allow"@.len() == 5 && "deny"@.len() == 4 && "cancelled"@.len() == 9);
}

/// No two of OPTIONS have the same id.
pub open spec fn distinct_options(options: Seq<JsonView>) -> bool {
    forall|i: int, j: int|
        0 <= i < j < options.len() ==> str_of(at(#[trigger] options[i], "optionId"@)) is None
            || str_of(at(options[i], "optionId"@)) != str_of(
            at(#[trigger] options[j], "optionId"@),
        )
}

proof fn lemma_kind_of_picked(options: Seq<JsonView>, kind: Seq<char>)
    requires
        distinct_options(options),
        option_of(options, kind) is Some,
    ensures
        option_kind(options, option_of(options, kind)->0) == Some(kind),
    decreases options.len(),
{
    let id = option_of(options, kind)->0;
    if str_of(at(options[0], "kind"@)) != Some(kind) {
        let rest = options.skip(1);
        assert forall|i: int, j: int| 0 <= i < j < rest.len() implies str_of(
            at(#[trigger] rest[i], "optionId"@),
        ) is None || str_of(at(rest[i], "optionId"@)) != str_of(
            at(#[trigger] rest[j], "optionId"@),
        ) by {
            assert(rest[i] == options[i + 1] && rest[j] == options[j + 1]);
        }
        lemma_kind_of_picked(rest, kind);
        lemma_option_is_offered(rest, kind);
        let k = choose|k: int|
            0 <= k < rest.len() && str_of(at(#[trigger] rest[k], "kind"@)) == Some(kind) && str_of(
                at(rest[k], "optionId"@),
            ) == option_of(rest, kind);
        assert(rest[k] == options[k + 1]);
        assert(str_of(at(options[0], "optionId"@)) != Some(id));
    }
}

/// The transcript tells what the policy decided: where the answer RESULT
/// carries the option selected, and the record of the decision, following
/// it counts the request as allowed just where the decision was to allow,
/// and as denied by the rule that decided otherwise.
pub proof fn law_transcripts_tell_the_decisions(
    l: Log,
    policy: PolicyView,
    req: RequestView,
    params: JsonView,
    stopped: bool,
    result: JsonView,
)
    requires
        distinct_options(items_of(at(params, "options"@))),
        l.d.allowed < u64::MAX,
        ({
            let a = answered(policy, req, at(params, "options"@), stopped);
            at(result, "_meta"@) == a.meta && str_of(at(at(result, "outcome"@), "optionId"@))
                == a.selected
        }),
    ensures
        ({
            let a = answered(policy, req, at(params, "options"@), stopped);
            let after = permission_noted(l, params, result).d;
            if str_of(at(at(a.meta, META_KEY@), "decision"@)) == Some("allow"@) {
                after.allowed == l.d.allowed + 1 && after.denied == l.d.denied
            } else {
                &&& after.allowed == l.d.allowed
                &&& after.denied.len() == l.d.denied.len() + 1
                &&& after.denied.last().rule == decided(policy, req).rule
            }
        }),
{
    let options = items_of(at(params, "options"@));
    let a = answered(policy, req, at(params, "options"@), stopped);
    law_decisions_are_recorded(policy, req, at(params, "options"@), stopped);
    lemma_decision_text(policy, req, at(params, "options"@), stopped);
    reveal_strlit("allow");
    reveal_strlit("allow_once");
    reveal_strlit("reject_once");
    reveal_strlit("reject_always");
    reveal_strlit("cancelled");
    assert("allow_once"@.take(5) =~= "allow"@);
    assert("reject_once"@.take(5)[0] == 'r' && "reject_always"@.take(5)[0] == 'r'
        && "cancelled"@.take(5)[0] == 'c' && "allow"@[0] == 'a' && "allow"@.len() == 5);
    if option_of(options, "allow_once"@) is Some {
        lemma_kind_of_picked(options, "allow_once"@);
    }
    if option_of(options, "reject_once"@) is Some {
        lemma_kind_of_picked(options, "reject_once"@);
    }
    if option_of(options, "reject_always"@) is Some {
        lemma_kind_of_picked(options, "reject_always"@);
    }
}

proof fn lemma_decision_text(
    policy: PolicyView,
    req: RequestView,
    options: JsonView,
    stopped: bool,
)
    ensures
        ({
            let a = answered(policy, req, options, stopped);
            let allows = match picked(options, decided(policy, req).decision) {
                Some((_, d)) => d == Decision::Allow,
                None => false,
            };
            str_of(at(at(a.meta, META_KEY@), "decision"@)) == Some("allow"@) <==> !stopped && allows
        }),
{
    broadcast use lemma_at_put;

    reveal_strlit("decision");
    reveal_strlit("rule");
    assert("decision"@.len() == 8 && "rule"@.len() == 4);
    reveal_strlit("allow");
    reveal_strlit("deny");
    reveal_strlit("cancelled");
    assert("allow"@.len() == 5 && "deny"@.len() == 4 && "cancelled"@.len() == 9);
}

/// What the agent sent besides permission requests.
#[derive(Debug)]
pub enum Incoming {
    /// A request for a method.
    Request(String),
    Notification,
    /// A response to a request of the harness's.
    Response,
}

/// What becomes of it.
#[derive(Debug)]
pub enum Reply {
    /// The request is answered with the error "method not found", with the
    /// method as its data.
    NotFound(String),
    /// Nothing: the transcript has it.
    Handled,
    /// It goes to who sent the request.
    PassOn,
}

/// Answers everything else that the agent sends: unhandled, the SDK would
/// queue it forever, and leave requests that the harness doesn't serve
/// unanswered until the timeout.
pub fn reply_to(incoming: Incoming) -> (r: Reply)
    ensures
        match incoming {
            Incoming::Request(method) => r is NotFound && r->NotFound_0@ == method@,
            Incoming::Notification => r is Handled,
            Incoming::Response => r is PassOn,
        },
{
    match incoming {
        Incoming::Request(method) => Reply::NotFound(method),
        Incoming::Notification => Reply::Handled,
        Incoming::Response => Reply::PassOn,
    }
}

// ---- The session -------------------------------------------------------

/// How a session ended.
#[derive(Debug)]
pub struct Ended {
    pub outcome: Outcome,
    pub stop_reason: Option<String>,
    pub message: Option<String>,
}

/// How a session ended.
#[verifier::ext_equal]
pub struct EndedView {
    pub outcome: Outcome,
    pub stop_reason: Option<Seq<char>>,
    pub message: Option<Seq<char>>,
}

impl View for Ended {
    type V = EndedView;

    open spec fn view(&self) -> EndedView {
        EndedView {
            outcome: self.outcome,
            stop_reason: opt_view(self.stop_reason),
            message: opt_view(self.message),
        }
    }
}

/// A failed session.
pub open spec fn failed(message: Seq<char>) -> EndedView {
    EndedView { outcome: Outcome::Failure, stop_reason: None, message: Some(message) }
}

impl Ended {
    pub fn failure(message: String) -> (r: Ended)
        ensures
            r@ == failed(message@),
    {
        Ended { outcome: Outcome::Failure, stop_reason: None, message: Some(message) }
    }
}

/// The outcome of a session that the harness stopped.
pub open spec fn stop_outcome(why: StopView) -> Outcome {
    match why {
        StopView::Timeout => Outcome::Timeout,
        StopView::Budget(_) => Outcome::Budget,
    }
}

/// Why the harness stopped a session, in words.
pub open spec fn stop_text(why: StopView) -> Seq<char> {
    match why {
        StopView::Timeout => "hit the timeout"@,
        StopView::Budget(m) => "over budget: "@ + m,
    }
}

/// Why the harness stopped a session, as its result.
pub fn stopped(why: &Stop) -> (r: (Outcome, String))
    ensures
        r.0 == stop_outcome(why@),
        r.1@ == stop_text(why@),
{
    match why {
        Stop::Timeout => (Outcome::Timeout, "hit the timeout".to_owned()),
        Stop::Budget(m) => {
            let mut s = "over budget: ".to_owned();
            s.append(m.as_str());
            (Outcome::Budget, s)
        },
    }
}

/// The outcome of a prompt turn that stopped for this reason.
pub open spec fn turn_outcome(reason: Option<Seq<char>>) -> Outcome {
    if reason == Some("end_turn"@) {
        Outcome::Success
    } else if reason == Some("cancelled"@) {
        Outcome::Cancelled
    } else if reason == Some("max_turn_requests"@) {
        // The agent's own turn limit.
        Outcome::Budget
    } else {
        Outcome::Failure
    }
}

/// How a session ends when the agent has answered the prompt: with a stop
/// reason, or with an error.
pub open spec fn turn_ended(r: Result<Option<Seq<char>>, Seq<char>>) -> EndedView {
    match r {
        Err(e) => failed("session/prompt failed: "@ + e),
        Ok(reason) => EndedView {
            outcome: turn_outcome(reason),
            stop_reason: reason,
            message: if turn_outcome(reason) == Outcome::Success {
                None
            } else {
                Some(
                    "the agent stopped: "@ + match reason {
                        Some(s) => s,
                        None => "?"@,
                    },
                )
            },
        },
    }
}

/// A result in words: what was said of the value is its view.
pub open spec fn turn_view(r: Result<Option<String>, String>) -> Result<
    Option<Seq<char>>,
    Seq<char>,
> {
    match r {
        Ok(o) => Ok(opt_view(o)),
        Err(e) => Err(e@),
    }
}

/// How the session ends with the agent's answer to the prompt.
pub fn prompt_result(r: Result<Option<String>, String>) -> (ended: Ended)
    ensures
        ended@ == turn_ended(turn_view(r)),
{
    match r {
        Err(e) => {
            let mut s = "session/prompt failed: ".to_owned();
            s.append(e.as_str());
            Ended::failure(s)
        },
        Ok(reason) => {
            let outcome = match &reason {
                Some(s) => if same(s.as_str(), "end_turn") {
                    Outcome::Success
                } else if same(s.as_str(), "cancelled") {
                    Outcome::Cancelled
                } else if same(s.as_str(), "max_turn_requests") {
                    Outcome::Budget
                } else {
                    Outcome::Failure
                },
                None => Outcome::Failure,
            };
            let message: Option<String> = if outcome == Outcome::Success {
                None
            } else {
                let mut s = "the agent stopped: ".to_owned();
                match &reason {
                    Some(why) => s.append(why.as_str()),
                    None => s.append("?"),
                }
                Some(s)
            };
            Ended { outcome, stop_reason: reason, message }
        },
    }
}

/// A config option that the agent offers for a session.
#[derive(Debug)]
pub struct ConfigOption {
    pub id: String,
    /// It is in the category `model`.
    pub selects_model: bool,
}

/// A session that the agent has started.
#[derive(Debug)]
pub struct NewSession {
    pub id: String,
    pub options: Vec<ConfigOption>,
}

/// The id of an option, and whether it selects the model.
pub open spec fn option_views(v: Seq<ConfigOption>) -> Seq<(Seq<char>, bool)> {
    Seq::new(v.len(), |i: int| (v[i].id@, v[i].selects_model))
}

/// The id of the first option that selects the model.
pub open spec fn model_selector(options: Seq<(Seq<char>, bool)>) -> Option<Seq<char>>
    decreases options.len(),
{
    if options.len() == 0 {
        None
    } else if options[0].1 {
        Some(options[0].0)
    } else {
        model_selector(options.skip(1))
    }
}

fn find_model_option(options: &Vec<ConfigOption>) -> (r: Option<String>)
    ensures
        opt_view(r) == model_selector(option_views(options@)),
{
    let ghost all = option_views(options@);
    let mut i: usize = 0;
    assert(all.skip(0) =~= all);
    while i < options.len()
        invariant
            i <= options@.len(),
            all == option_views(options@),
            model_selector(all) == model_selector(all.skip(i as int)),
        decreases options@.len() - i,
    {
        assert(all.skip(i as int)[0] == all[i as int]);
        if options[i].selects_model {
            return Some(options[i].id.clone());
        }
        assert(all.skip(i as int).skip(1) =~= all.skip(i + 1));
        i += 1;
    }
    None
}

/// How far a session is.
#[derive(Debug)]
pub enum Phase {
    /// The agent was sent `initialize`.
    Initializing,
    /// It was sent `session/new`.
    Starting,
    /// It was told the model of the session with this id.
    Selecting(String),
    /// It was prompted in the session with this id.
    Prompted(String),
    /// It was told to cancel the session, which ends in this way.
    Cancelling(Ended),
    /// The session has ended.
    Over,
}

/// How far a session is.
pub enum PhaseView {
    Initializing,
    Starting,
    Selecting(Seq<char>),
    Prompted(Seq<char>),
    Cancelling(EndedView),
    Over,
}

impl View for Phase {
    type V = PhaseView;

    open spec fn view(&self) -> PhaseView {
        match self {
            Phase::Initializing => PhaseView::Initializing,
            Phase::Starting => PhaseView::Starting,
            Phase::Selecting(sid) => PhaseView::Selecting(sid@),
            Phase::Prompted(sid) => PhaseView::Prompted(sid@),
            Phase::Cancelling(ended) => PhaseView::Cancelling(ended@),
            Phase::Over => PhaseView::Over,
        }
    }
}

/// What happens in a session.
#[derive(Debug)]
pub enum Event {
    /// The agent answered `initialize`, or failed to.
    Initialized(Result<(), String>),
    /// It answered `session/new`.
    Started(Result<NewSession, String>),
    /// It answered `session/set_config_option`.
    Selected(Result<(), String>),
    /// It answered `session/prompt`, with a stop reason.
    Answered(Result<Option<String>, String>),
    /// The harness decided to stop the session; none where the decision
    /// can't come any more.
    Stopped(Option<Stop>),
    /// The agent answered the prompt after the cancel, or had its time to.
    WoundDown,
}

/// What happens in a session.
pub enum EventView {
    Initialized(Result<(), Seq<char>>),
    Started(Result<(Seq<char>, Seq<(Seq<char>, bool)>), Seq<char>>),
    Selected(Result<(), Seq<char>>),
    Answered(Result<Option<Seq<char>>, Seq<char>>),
    Stopped(Option<StopView>),
    WoundDown,
}

/// A result that is nothing or an error.
pub open spec fn done_view(r: Result<(), String>) -> Result<(), Seq<char>> {
    match r {
        Ok(_) => Ok(()),
        Err(e) => Err(e@),
    }
}

impl View for Event {
    type V = EventView;

    open spec fn view(&self) -> EventView {
        match self {
            Event::Initialized(r) => EventView::Initialized(done_view(*r)),
            Event::Started(r) => EventView::Started(
                match r {
                    Ok(s) => Ok((s.id@, option_views(s.options@))),
                    Err(e) => Err(e@),
                },
            ),
            Event::Selected(r) => EventView::Selected(done_view(*r)),
            Event::Answered(r) => EventView::Answered(turn_view(*r)),
            Event::Stopped(why) => EventView::Stopped(opt_stop(*why)),
            Event::WoundDown => EventView::WoundDown,
        }
    }
}

/// What the harness does next.
#[derive(Debug)]
pub enum Action {
    /// Send `initialize`. fs and terminal are left unadvertised (the
    /// defaults), so agents use their own tools inside the sandbox; ACP v2
    /// drops them anyway.
    Initialize,
    /// Send `session/new` for this working directory.
    Start(String),
    /// Set a config option of a session: its id, the option's, the value.
    Select(String, String, String),
    /// Send `session/prompt`: the session's id and the text.
    Prompt(String, String),
    /// Log the line, send `session/cancel` for the session, and give the
    /// agent a moment to answer the prompt.
    Cancel(String, String),
    /// Log the lines, and end.
    End(Vec<String>, Ended),
}

/// What the harness does next.
pub enum ActionView {
    Initialize,
    Start(Seq<char>),
    Select(Seq<char>, Seq<char>, Seq<char>),
    Prompt(Seq<char>, Seq<char>),
    Cancel(Seq<char>, Seq<char>),
    End(Seq<Seq<char>>, EndedView),
}

impl View for Action {
    type V = ActionView;

    open spec fn view(&self) -> ActionView {
        match self {
            Action::Initialize => ActionView::Initialize,
            Action::Start(cwd) => ActionView::Start(cwd@),
            Action::Select(sid, option, value) => ActionView::Select(sid@, option@, value@),
            Action::Prompt(sid, text) => ActionView::Prompt(sid@, text@),
            Action::Cancel(line, sid) => ActionView::Cancel(line@, sid@),
            Action::End(lines, ended) => ActionView::End(views(lines@), ended@),
        }
    }
}

/// The task of a session, and how far it is: initialize, session/new, the
/// model, then one prompt.
#[derive(Debug)]
pub struct Session {
    pub cwd: String,
    pub model: Option<String>,
    /// The agent takes its model from the environment.
    pub model_by_env: bool,
    pub prompt: String,
    pub phase: Phase,
}

/// The task of a session.
#[verifier::ext_equal]
pub struct TaskView {
    pub cwd: Seq<char>,
    pub model: Option<Seq<char>>,
    pub model_by_env: bool,
    pub prompt: Seq<char>,
}

impl Session {
    /// The task of the session.
    pub open spec fn task(self) -> TaskView {
        TaskView {
            cwd: self.cwd@,
            model: opt_view(self.model),
            model_by_env: self.model_by_env,
            prompt: self.prompt@,
        }
    }
}

/// An event that can come in a phase: the answer that it waits for, or a
/// stop before the harness has cancelled the session.
pub open spec fn can_come(phase: PhaseView, event: EventView) -> bool {
    match (phase, event) {
        (PhaseView::Initializing, EventView::Initialized(_)) => true,
        (PhaseView::Starting, EventView::Started(_)) => true,
        (PhaseView::Selecting(_), EventView::Selected(_)) => true,
        (PhaseView::Prompted(_), EventView::Answered(_)) => true,
        (PhaseView::Cancelling(_), EventView::WoundDown) => true,
        (PhaseView::Cancelling(_), _) => false,
        (PhaseView::Over, _) => false,
        (_, EventView::Stopped(_)) => true,
        _ => false,
    }
}

/// The session ends in this way, with nothing more to log.
pub open spec fn ends(ended: EndedView) -> (PhaseView, ActionView) {
    (PhaseView::Over, ActionView::End(Seq::empty(), ended))
}

/// The session with the id SID is prompted.
pub open spec fn prompts(task: TaskView, sid: Seq<char>) -> (PhaseView, ActionView) {
    (PhaseView::Prompted(sid), ActionView::Prompt(sid, task.prompt))
}

/// What an event leads to: the next phase, and what to do.
pub open spec fn stepped(task: TaskView, phase: PhaseView, event: EventView) -> (
    PhaseView,
    ActionView,
) {
    match (phase, event) {
        (_, EventView::Initialized(Err(e))) => ends(failed("initialize failed: "@ + e)),
        (_, EventView::Initialized(Ok(_))) => (PhaseView::Starting, ActionView::Start(task.cwd)),
        (_, EventView::Started(Err(e))) => ends(failed("session/new failed: "@ + e)),
        (_, EventView::Started(Ok((sid, options)))) => if task.model is Some
            && !task.model_by_env {
            // Where the agent has no environment variable for it, the model
            // is a session config option.
            match model_selector(options) {
                None => ends(
                    failed(
                        "the agent has no model option to select "@ + task.model->0 + " with"@,
                    ),
                ),
                Some(option) => (
                    PhaseView::Selecting(sid),
                    ActionView::Select(sid, option, task.model->0),
                ),
            }
        } else {
            prompts(task, sid)
        },
        (_, EventView::Selected(Err(e))) => ends(
            failed(
                "selecting model "@ + match task.model {
                    Some(m) => m,
                    None => Seq::empty(),
                } + " failed: "@ + e,
            ),
        ),
        (PhaseView::Selecting(sid), EventView::Selected(Ok(_))) => prompts(task, sid),
        (_, EventView::Answered(r)) => ends(turn_ended(r)),
        (_, EventView::Stopped(None)) => ends(failed("the harness lost its stop signal"@)),
        (PhaseView::Prompted(sid), EventView::Stopped(Some(why))) => (
            PhaseView::Cancelling(
                EndedView {
                    outcome: stop_outcome(why),
                    stop_reason: None,
                    message: Some(stop_text(why)),
                },
            ),
            ActionView::Cancel("⚠ "@ + stop_text(why), sid),
        ),
        (_, EventView::Stopped(Some(why))) => (
            PhaseView::Over,
            // No session to cancel yet: the process is killed on return.
            ActionView::End(
                seq!["⚠ "@ + stop_text(why) + " (starting the session)"@],
                EndedView {
                    outcome: stop_outcome(why),
                    stop_reason: None,
                    message: Some(stop_text(why)),
                },
            ),
        ),
        (PhaseView::Cancelling(ended), EventView::WoundDown) => ends(ended),
        _ => (phase, ActionView::Initialize),
    }
}

fn end(ended: Ended) -> (r: (Phase, Action))
    ensures
        (r.0@, r.1@) == ends(ended@),
{
    let lines: Vec<String> = Vec::new();
    assert(views(lines@) =~= Seq::<Seq<char>>::empty());
    (Phase::Over, Action::End(lines, ended))
}

fn fail(what: &str, e: &str) -> (r: (Phase, Action))
    ensures
        (r.0@, r.1@) == ends(failed(what@ + " failed: "@ + e@)),
{
    let mut s = what.to_owned();
    s.append(" failed: ");
    s.append(e);
    end(Ended::failure(s))
}

impl Session {
    /// A session for one prompt, and what to do first.
    pub fn new(cwd: String, model: Option<String>, model_by_env: bool, prompt: String) -> (r: (
        Session,
        Action,
    ))
        ensures
            r.0.task() == (TaskView {
                cwd: cwd@,
                model: opt_view(model),
                model_by_env,
                prompt: prompt@,
            }),
            r.0.phase@ is Initializing,
            r.1@ is Initialize,
    {
        (
            Session { cwd, model, model_by_env, prompt, phase: Phase::Initializing },
            Action::Initialize,
        )
    }

    fn prompt_in(&self, sid: String) -> (r: (Phase, Action))
        ensures
            (r.0@, r.1@) == prompts(self.task(), sid@),
    {
        let action = Action::Prompt(sid.clone(), self.prompt.clone());
        (Phase::Prompted(sid), action)
    }

    fn step(&self, phase: Phase, event: Event) -> (r: (Phase, Action))
        requires
            can_come(phase@, event@),
        ensures
            (r.0@, r.1@) == stepped(self.task(), phase@, event@),
    {
        match (phase, event) {
            (_, Event::Initialized(Err(e))) => {
                assert("initialize failed: "@ =~= "initialize"@ + " failed: "@) by {
                    reveal_strlit("initialize failed: ");
                    reveal_strlit("initialize");
                    reveal_strlit(" failed: ");
                }
                fail("initialize", e.as_str())
            },
            (_, Event::Initialized(Ok(_))) => (Phase::Starting, Action::Start(self.cwd.clone())),
            (_, Event::Started(Err(e))) => {
                assert("session/new failed: "@ =~= "session/new"@ + " failed: "@) by {
                    reveal_strlit("session/new failed: ");
                    reveal_strlit("session/new");
                    reveal_strlit(" failed: ");
                }
                fail("session/new", e.as_str())
            },
            (_, Event::Started(Ok(s))) => {
                if let (Some(model), false) = (&self.model, self.model_by_env) {
                    match find_model_option(&s.options) {
                        None => {
                            let mut m = "the agent has no model option to select ".to_owned();
                            m.append(model.as_str());
                            m.append(" with");
                            end(Ended::failure(m))
                        },
                        Some(option) => {
                            let action = Action::Select(s.id.clone(), option, model.clone());
                            (Phase::Selecting(s.id), action)
                        },
                    }
                } else {
                    self.prompt_in(s.id)
                }
            },
            (_, Event::Selected(Err(e))) => {
                let mut what = "selecting model ".to_owned();
                match &self.model {
                    Some(m) => what.append(m.as_str()),
                    None => {
                        assert("selecting model "@ + Seq::<char>::empty() =~= "selecting model "@);
                    },
                }
                fail(what.as_str(), e.as_str())
            },
            (Phase::Selecting(sid), Event::Selected(Ok(_))) => self.prompt_in(sid),
            (_, Event::Answered(r)) => end(prompt_result(r)),
            (_, Event::Stopped(None)) => end(
                Ended::failure("the harness lost its stop signal".to_owned()),
            ),
            (Phase::Prompted(sid), Event::Stopped(Some(why))) => {
                let (outcome, msg) = stopped(&why);
                let mut line = "⚠ ".to_owned();
                line.append(msg.as_str());
                // Ask the agent to stop, and give it a moment to answer the
                // prompt (with stopReason "cancelled"); permission requests
                // from here on are cancelled. The caller then closes the
                // connection, and the SDK kills the process group it spawned.
                (
                    Phase::Cancelling(Ended { outcome, stop_reason: None, message: Some(msg) }),
                    Action::Cancel(line, sid),
                )
            },
            (_, Event::Stopped(Some(why))) => {
                let (outcome, msg) = stopped(&why);
                let mut line = "⚠ ".to_owned();
                line.append(msg.as_str());
                line.append(" (starting the session)");
                let mut lines: Vec<String> = Vec::new();
                lines.push(line);
                assert(views(lines@) =~= seq![line@]);
                (
                    Phase::Over,
                    Action::End(lines, Ended { outcome, stop_reason: None, message: Some(msg) }),
                )
            },
            (Phase::Cancelling(ended), Event::WoundDown) => end(ended),
            (phase, _) => (phase, Action::Initialize),
        }
    }

    /// Whether EVENT can come now.
    pub fn takes(&self, event: &Event) -> (r: bool)
        ensures
            r == can_come(self.phase@, event@),
    {
        match (&self.phase, event) {
            (Phase::Initializing, Event::Initialized(_)) => true,
            (Phase::Starting, Event::Started(_)) => true,
            (Phase::Selecting(_), Event::Selected(_)) => true,
            (Phase::Prompted(_), Event::Answered(_)) => true,
            (Phase::Cancelling(_), Event::WoundDown) => true,
            (Phase::Cancelling(_), _) => false,
            (Phase::Over, _) => false,
            (_, Event::Stopped(_)) => true,
            _ => false,
        }
    }

    /// What to do on EVENT.
    pub fn next(&mut self, event: Event) -> (action: Action)
        requires
            can_come(old(self).phase@, event@),
        ensures
            final(self).task() == old(self).task(),
            (final(self).phase@, action@) == stepped(
                old(self).task(),
                old(self).phase@,
                event@,
            ),
    {
        let mut phase = Phase::Over;
        core::mem::swap(&mut phase, &mut self.phase);
        let (after, action) = self.step(phase, event);
        self.phase = after;
        action
    }
}

/// How many steps a session has before it at most.
pub open spec fn steps_left(phase: PhaseView) -> nat {
    match phase {
        PhaseView::Initializing => 5,
        PhaseView::Starting => 4,
        PhaseView::Selecting(_) => 3,
        PhaseView::Prompted(_) => 2,
        PhaseView::Cancelling(_) => 1,
        PhaseView::Over => 0,
    }
}

/// Every event that can come takes a session nearer to its end, and it has
/// ended just when the harness is told to end.
pub proof fn law_sessions_end(task: TaskView, phase: PhaseView, event: EventView)
    requires
        can_come(phase, event),
    ensures
        ({
            let (after, action) = stepped(task, phase, event);
            &&& steps_left(after) < steps_left(phase)
            &&& after is Over <==> action is End
        }),
{
}

/// A session that the harness stops has the outcome of the stop, whatever
/// the agent answers after it; it is cancelled if the agent was prompted in
/// it, and only then.
pub proof fn law_stopped_sessions_end_stopped(task: TaskView, phase: PhaseView, why: StopView)
    requires
        can_come(phase, EventView::Stopped(Some(why))),
    ensures
        ({
            let (after, action) = stepped(task, phase, EventView::Stopped(Some(why)));
            &&& action is Cancel <==> phase is Prompted
            &&& phase is Prompted ==> action->Cancel_1 == phase->Prompted_0
            &&& !(phase is Prompted) ==> action is End && action->End_1.outcome == stop_outcome(why)
            &&& phase is Prompted ==> {
                let last = stepped(task, after, EventView::WoundDown).1;
                &&& can_come(after, EventView::WoundDown)
                &&& forall|e: EventView| #[trigger] can_come(after, e) ==> e is WoundDown
                &&& last is End
                &&& last->End_1.outcome == stop_outcome(why)
                &&& last->End_1.message == Some(stop_text(why))
            }
        }),
{
}

/// A session succeeds only where the agent ended its turn by itself.
pub proof fn law_success_is_a_finished_turn(task: TaskView, phase: PhaseView, event: EventView)
    requires
        can_come(phase, event),
        !(phase is Cancelling),
        stepped(task, phase, event).1 is End,
    ensures
        stepped(task, phase, event).1->End_1.outcome == Outcome::Success <==> event
            == EventView::Answered(Ok(Some("end_turn"@))),
{
}

/// The agent is prompted with the task, and with the model selected first
/// where it doesn't take it from the environment.
pub proof fn law_prompts_follow_the_model(task: TaskView, phase: PhaseView, event: EventView)
    requires
        can_come(phase, event),
        stepped(task, phase, event).1 is Prompt,
    ensures
        stepped(task, phase, event).1->Prompt_1 == task.prompt,
        task.model is Some && !task.model_by_env ==> event is Selected && event->Selected_0 is Ok,
{
}

// ---- The result --------------------------------------------------------

/// How a run ended, with its write error, which counts before all else.
pub open spec fn concluded(
    ended: EndedView,
    digest_stop_reason: Option<Seq<char>>,
    write_error: Option<Seq<char>>,
) -> EndedView {
    EndedView {
        outcome: if write_error is Some {
            Outcome::Failure
        } else {
            ended.outcome
        },
        stop_reason: if ended.stop_reason is Some {
            ended.stop_reason
        } else {
            digest_stop_reason
        },
        message: if write_error is Some {
            write_error
        } else {
            ended.message
        },
    }
}

/// The last lines of the log: what the digest held back, and why the run
/// failed, unless the digest already said.
pub open spec fn last_lines(d: DigestView, ended: EndedView) -> Seq<Seq<char>> {
    let held = flushed(Log { d, out: Seq::empty() }).out;
    if ended.outcome == Outcome::Failure && ended.message is Some && d.error is None {
        held.push(cut_text("⚠ "@ + ended.message->0))
    } else {
        held
    }
}

/// However a run ended, and whatever the agent or the transport said of it,
/// the last lines of the log stay on their lines and are short.
pub proof fn law_last_lines_stay_on_their_lines(d: DigestView, ended: EndedView, i: int)
    requires
        0 <= i < last_lines(d, ended).len(),
    ensures
        is_log_line(last_lines(d, ended)[i]),
{
    let held = flushed(Log { d, out: Seq::empty() }).out;
    if i < held.len() {
        law_last_line_stays_on_its_line(d, i);
    } else {
        law_cut_is_one_line("⚠ "@ + ended.message->0);
    }
}

/// How a session that the transport reports ended: an error is usually that
/// the agent exited.
pub open spec fn session_ended(session: Result<EndedView, Seq<char>>) -> EndedView {
    match session {
        Ok(ended) => ended,
        Err(e) => failed("the agent failed: "@ + e),
    }
}

/// What the transport reports of a session.
pub open spec fn session_view(session: Result<Ended, String>) -> Result<EndedView, Seq<char>> {
    match session {
        Ok(ended) => Ok(ended@),
        Err(e) => Err(e@),
    }
}

impl Tap {
    /// Ends the run: how, and the last lines of the log. An error of the
    /// SESSION is the transport's.
    pub fn conclude(&mut self, session: Result<Ended, String>) -> (r: (Ended, Vec<String>))
        ensures
            r.0@ == concluded(
                session_ended(session_view(session)),
                old(self).digest@.stop_reason,
                opt_view(old(self).error),
            ),
            views(r.1@) == last_lines(old(self).digest@, r.0@),
            final(self).error is None,
            final(self).digest@ == flushed(Log { d: old(self).digest@, out: Seq::empty() }).d,
            final(self).limits == old(self).limits,
    {
        let mut ended = match session {
            Ok(ended) => ended,
            Err(e) => {
                let mut s = "the agent failed: ".to_owned();
                s.append(e.as_str());
                Ended::failure(s)
            },
        };
        let mut lines = self.digest.finish();
        if ended.stop_reason.is_none() {
            ended.stop_reason = copy_opt(&self.digest.stop_reason);
        }
        if self.error.is_some() {
            ended.outcome = Outcome::Failure;
            ended.message = copy_opt(&self.error);
        }
        self.error = None;
        // Why it didn't succeed, unless the digest already said.
        if ended.outcome == Outcome::Failure && self.digest.error.is_none() {
            if let Some(m) = &ended.message {
                let mut s = "⚠ ".to_owned();
                s.append(m.as_str());
                lines.push(cut(s.as_str()));
            }
        }
        (ended, lines)
    }
}

/// `harness.json` of a run; none where its times have no text.
pub open spec fn result_of(
    agent: Seq<char>,
    command: Seq<Seq<char>>,
    ended: EndedView,
    started: Moment,
    finished: Moment,
    limits: Limits,
) -> Option<RunResultView> {
    let from = rfc3339_text(started.secs, started.nanos);
    let to = rfc3339_text(finished.secs, finished.nanos);
    if from is Some && to is Some {
        Some(
            RunResultView {
                schema: RESULT_SCHEMA@,
                agent,
                command,
                result: ended.outcome,
                stop_reason: ended.stop_reason,
                message: match ended.message {
                    Some(m) => Some(cut_text(m)),
                    None => None,
                },
                started_at: from->0,
                finished_at: to->0,
                duration_s: seconds_from(started, finished) as u64,
                limits,
            },
        )
    } else {
        None
    }
}

impl RunResult {
    /// What the run of COMMAND did.
    pub fn new(
        agent: String,
        command: Vec<String>,
        ended: Ended,
        started: Moment,
        finished: Moment,
        limits: Limits,
    ) -> (r: Option<RunResult>)
        requires
            is_plain_moment(started),
            is_plain_moment(finished),
        ensures
            match r {
                Some(res) => result_of(agent@, views(command@), ended@, started, finished, limits)
                    == Some(res@),
                None => result_of(
                    agent@,
                    views(command@),
                    ended@,
                    started,
                    finished,
                    limits,
                ) is None,
            },
    {
        match (started.rfc3339(), finished.rfc3339()) {
            (Some(from), Some(to)) => Some(
                RunResult {
                    schema: RESULT_SCHEMA.to_owned(),
                    agent,
                    command,
                    result: ended.outcome,
                    stop_reason: ended.stop_reason,
                    message: match ended.message {
                        Some(m) => Some(cut(m.as_str())),
                        None => None,
                    },
                    started_at: from,
                    finished_at: to,
                    duration_s: started.seconds_to(finished),
                    limits,
                },
            ),
            _ => None,
        }
    }
}

/// The message of a result is on one line, and at most MAX_TEXT characters
/// long.
pub proof fn law_result_messages_are_short(
    agent: Seq<char>,
    command: Seq<Seq<char>>,
    ended: EndedView,
    started: Moment,
    finished: Moment,
    limits: Limits,
)
    ensures
        ({
            let r = result_of(agent, command, ended, started, finished, limits);
            r is Some && r->0.message is Some ==> is_one_line(r->0.message->0)
                && r->0.message->0.len() <= MAX_TEXT
        }),
{
    if ended.message is Some {
        law_cut_is_one_line(ended.message->0);
    }
}

/// A run whose transcript could not be written fails with why, however its
/// session ended.
pub proof fn law_lost_transcripts_fail(
    ended: EndedView,
    digest_stop_reason: Option<Seq<char>>,
    e: Seq<char>,
)
    ensures
        concluded(ended, digest_stop_reason, Some(e)).outcome == Outcome::Failure,
        concluded(ended, digest_stop_reason, Some(e)).message == Some(e),
{
}

// ---- What a run comes to -----------------------------------------------

/// A success exits with 0, a timeout with 124, a spent budget with 3, and
/// any other end with 1.
pub proof fn law_exit_statuses_are_fixed()
    ensures
        exit_status_of(Outcome::Success) == 0,
        exit_status_of(Outcome::Timeout) == 124,
        exit_status_of(Outcome::Budget) == 3,
        exit_status_of(Outcome::Failure) == 1,
        exit_status_of(Outcome::Cancelled) == 1,
        outcome_text(Outcome::Success) == "success"@,
        outcome_text(Outcome::Failure) == "failure"@,
        outcome_text(Outcome::Timeout) == "timeout"@,
        outcome_text(Outcome::Budget) == "budget"@,
        outcome_text(Outcome::Cancelled) == "cancelled"@,
{
}

/// Where the transcript was written, a run concludes with the outcome and
/// the message that its session ended with, whatever they are. Its stop
/// reason is the session's, else the one that the agent gave.
pub proof fn law_runs_conclude_as_their_sessions(
    ended: EndedView,
    digest_stop_reason: Option<Seq<char>>,
)
    ensures
        ({
            let run = concluded(session_ended(Ok(ended)), digest_stop_reason, None);
            &&& run.outcome == ended.outcome
            &&& run.message == ended.message
            &&& ended.stop_reason is Some ==> run.stop_reason == ended.stop_reason
            &&& ended.stop_reason is None ==> run.stop_reason == digest_stop_reason
        }),
{
}

/// A run whose transport failed has failed, with what the transport says.
pub proof fn law_lost_agents_fail(e: Seq<char>, digest_stop_reason: Option<Seq<char>>)
    ensures
        ({
            let run = concluded(session_ended(Err(e)), digest_stop_reason, None);
            &&& run.outcome == Outcome::Failure
            &&& run.message == Some("the agent failed: "@ + e)
            &&& run.stop_reason == digest_stop_reason
        }),
{
}

/// A session that is stopped, in whatever phase, concludes as what it was
/// stopped for: at the timeout with exit status 124, over budget with 3,
/// and with why as its message.
pub proof fn law_stopped_runs_tell_why(
    task: TaskView,
    phase: PhaseView,
    why: StopView,
    digest_stop_reason: Option<Seq<char>>,
)
    requires
        can_come(phase, EventView::Stopped(Some(why))),
    ensures
        ({
            let (after, action) = stepped(task, phase, EventView::Stopped(Some(why)));
            let last = if phase is Prompted {
                stepped(task, after, EventView::WoundDown).1
            } else {
                action
            };
            let run = concluded(session_ended(Ok(last->End_1)), digest_stop_reason, None);
            let status = exit_status_of(run.outcome);
            &&& last is End
            &&& why is Timeout ==> status == 124 && run.outcome == Outcome::Timeout && run.message
                == Some("hit the timeout"@)
            &&& why is Budget ==> status == 3 && run.outcome == Outcome::Budget && run.message
                == Some("over budget: "@ + why->Budget_0)
            &&& phase is Prompted ==> action == ActionView::Cancel(
                "⚠ "@ + run.message->0,
                phase->Prompted_0,
            )
            &&& !(phase is Prompted) ==> last->End_0 == seq![
                "⚠ "@ + run.message->0 + " (starting the session)"@,
            ]
        }),
{
}

/// A turn that the agent ends is a success, one that it cancels is
/// cancelled, one that hits its own limit of turns is over budget, and any
/// other is a failure; all but a success say how the agent stopped.
pub proof fn law_turns_end_by_their_reason(
    task: TaskView,
    sid: Seq<char>,
    reason: Option<Seq<char>>,
    e: Seq<char>,
)
    ensures
        ({
            let ended = stepped(
                task,
                PhaseView::Prompted(sid),
                EventView::Answered(Ok(reason)),
            ).1->End_1;
            let lost = stepped(task, PhaseView::Prompted(sid), EventView::Answered(Err(e))).1;
            &&& ended.stop_reason == reason
            &&& reason == Some("end_turn"@) ==> ended.outcome == Outcome::Success && ended.message
                is None
            &&& reason == Some("cancelled"@) ==> ended.outcome == Outcome::Cancelled
            &&& reason == Some("max_turn_requests"@) ==> ended.outcome == Outcome::Budget
            &&& reason != Some("end_turn"@) && reason != Some("cancelled"@) && reason != Some(
                "max_turn_requests"@,
            ) ==> ended.outcome == Outcome::Failure
            &&& reason is Some && reason != Some("end_turn"@) ==> ended.message == Some(
                "the agent stopped: "@ + reason->0,
            )
            &&& reason is None ==> ended.message == Some("the agent stopped: "@ + "?"@)
            &&& lost is End && lost->End_1 == (EndedView {
                outcome: Outcome::Failure,
                stop_reason: None,
                message: Some("session/prompt failed: "@ + e),
            })
        }),
{
    reveal_strlit("end_turn");
    reveal_strlit("cancelled");
    reveal_strlit("max_turn_requests");
    assert("end_turn"@.len() == 8 && "cancelled"@.len() == 9 && "max_turn_requests"@.len() == 17);
}

proof fn lemma_model_selector(options: Seq<(Seq<char>, bool)>, i: int)
    requires
        0 <= i <= options.len(),
        i < options.len() ==> options[i].1,
        forall|k: int| 0 <= k < i ==> !(#[trigger] options[k]).1,
    ensures
        model_selector(options) == if i < options.len() {
            Some(options[i].0)
        } else {
            None
        },
    decreases i,
{
    if i > 0 {
        assert(!options[0].1);
        let rest = options.skip(1);
        assert forall|k: int| 0 <= k < i - 1 implies !(#[trigger] rest[k]).1 by {
            assert(rest[k] == options[k + 1]);
        }
        if i < options.len() {
            assert(rest[i - 1] == options[i]);
        }
        lemma_model_selector(rest, i - 1);
    }
}

/// A session goes its way: once the agent has initialized, it is started in
/// the task's directory; once it has started, the model is selected with the
/// first option that selects one, where there is a model that the agent does
/// not take from the environment; then the agent is prompted with the task,
/// in that session. A step that fails ends the session, with what failed.
pub proof fn law_sessions_go_their_way(
    task: TaskView,
    sid: Seq<char>,
    options: Seq<(Seq<char>, bool)>,
    i: int,
    e: Seq<char>,
)
    requires
        0 <= i <= options.len(),
        i < options.len() ==> options[i].1,
        forall|k: int| 0 <= k < i ==> !(#[trigger] options[k]).1,
    ensures
        ({
            let init = PhaseView::Initializing;
            let starting = PhaseView::Starting;
            let started = stepped(task, starting, EventView::Started(Ok((sid, options))));
            let selects = task.model is Some && !task.model_by_env;
            let fails = |action: ActionView, message: Seq<char>|
                action is End && action->End_0.len() == 0 && action->End_1 == (EndedView {
                    outcome: Outcome::Failure,
                    stop_reason: None,
                    message: Some(message),
                });
            &&& stepped(task, init, EventView::Initialized(Ok(()))) == (
                starting,
                ActionView::Start(task.cwd),
            )
            &&& fails(
                stepped(task, init, EventView::Initialized(Err(e))).1,
                "initialize failed: "@ + e,
            )
            &&& fails(
                stepped(task, starting, EventView::Started(Err(e))).1,
                "session/new failed: "@ + e,
            )
            &&& !selects ==> started == (
                PhaseView::Prompted(sid),
                ActionView::Prompt(sid, task.prompt),
            )
            &&& selects && i < options.len() ==> started == (
                PhaseView::Selecting(sid),
                ActionView::Select(sid, options[i].0, task.model->0),
            )
            &&& selects && i == options.len() ==> fails(
                started.1,
                "the agent has no model option to select "@ + task.model->0 + " with"@,
            )
            &&& stepped(task, PhaseView::Selecting(sid), EventView::Selected(Ok(()))) == (
                PhaseView::Prompted(sid),
                ActionView::Prompt(sid, task.prompt),
            )
            &&& task.model is Some ==> fails(
                stepped(task, PhaseView::Selecting(sid), EventView::Selected(Err(e))).1,
                "selecting model "@ + task.model->0 + " failed: "@ + e,
            )
            &&& fails(
                stepped(task, init, EventView::Stopped(None)).1,
                "the harness lost its stop signal"@,
            )
        }),
{
    lemma_model_selector(options, i);
}

/// A session over its budget is told how: by the number of tool calls that
/// it may make, where it made more, else by what it overspent.
pub proof fn law_overruns_are_told(calls: nat, max: usize, overspent: Option<Seq<char>>)
    ensures
        calls > max ==> over_budget_of(calls, Some(max), overspent) == Some(
            StopView::Budget("more than "@ + decimal(max as nat) + " tool calls"@),
        ),
        calls <= max && overspent is Some ==> over_budget_of(calls, Some(max), overspent) == Some(
            StopView::Budget(overspent->0),
        ),
        calls <= max && overspent is None ==> over_budget_of(calls, Some(max), overspent) is None,
        overspent is Some ==> over_budget_of(calls, None, overspent) == Some(
            StopView::Budget(overspent->0),
        ),
        overspent is None ==> over_budget_of(calls, None, overspent) is None,
{
}

/// Of several reasons to stop, the first one counts.
pub proof fn law_first_stop_counts(a: StopView, b: StopView)
    ensures
        first_stop(None, a) == Some(a),
        first_stop(Some(a), b) == Some(a),
{
}

/// A permission request is answered as the policy decides, with an option
/// that the agent offers: an allow with the first `allow_once`, recorded as
/// `allow`; a denial with the first `reject_once`, recorded as `deny`; with
/// no option that fits, or once the session is stopped, the request is
/// cancelled, and recorded so. The rule that decided is recorded too.
pub proof fn law_requests_are_answered_by_the_policy(
    policy: PolicyView,
    req: RequestView,
    options: Seq<JsonView>,
    stopped: bool,
    i: int,
    id: Seq<char>,
)
    ensures
        ({
            let a = answered(policy, req, JsonView::Array(options), stopped);
            let verdict = decided(policy, req);
            let recorded = at(a.meta, "botHarness"@);
            let decision = str_of(at(recorded, "decision"@));
            let denies = verdict.decision == Decision::Deny || offers_none(
                options,
                "allow_once"@,
            );
            &&& verdict.rule is Some ==> at(recorded, "rule"@) == JsonView::Str(verdict.rule->0)
            &&& verdict.rule is None ==> at(recorded, "rule"@) is Null
            &&& stopped ==> a.selected is None && decision == Some("cancelled"@)
            &&& !stopped && verdict.decision == Decision::Allow && offers_first(
                options,
                "allow_once"@,
                i,
                id,
            ) ==> a.selected == Some(id) && decision == Some("allow"@)
            &&& !stopped && denies && offers_first(options, "reject_once"@, i, id) ==> a.selected
                == Some(id) && decision == Some("deny"@)
            &&& denies && offers_none(options, "reject_once"@) && offers_none(
                options,
                "reject_always"@,
            ) ==> a.selected is None && decision == Some("cancelled"@)
        }),
{
    broadcast use lemma_at_put;

    reveal_strlit("decision");
    reveal_strlit("rule");
    assert("decision"@.len() == 8 && "rule"@.len() == 4);
    law_options_are_picked_by_kind(options, decided(policy, req).decision, i, id);
}

/// The last line of the log says why the run failed, unless the log has said
/// so already; what the agent said last comes before it.
pub proof fn law_failures_are_logged_last(d: DigestView, ended: EndedView, message: Seq<char>)
    requires
        ended.message == Some(message),
    ensures
        ({
            let lines = last_lines(d, ended);
            let held = if d.text.said {
                seq![cut_text("» "@ + d.text.line)]
            } else {
                Seq::empty()
            };
            &&& ended.outcome == Outcome::Failure && d.error is None ==> lines == held.push(
                cut_text("⚠ "@ + message),
            )
            &&& ended.outcome != Outcome::Failure || d.error is Some ==> lines == held
        }),
{
    let held = if d.text.said {
        seq![cut_text("» "@ + d.text.line)]
    } else {
        Seq::empty()
    };
    assert(flushed(Log { d, out: Seq::empty() }).out =~= held);
}

/// harness.json says what the run did: the agent and its command, how it
/// ended, from when to when and within which limits.
pub proof fn law_results_say_what_was_done(
    agent: Seq<char>,
    command: Seq<Seq<char>>,
    ended: EndedView,
    started: Moment,
    finished: Moment,
    limits: Limits,
)
    ensures
        ({
            let from = rfc3339_text(started.secs, started.nanos);
            let to = rfc3339_text(finished.secs, finished.nanos);
            let r = result_of(agent, command, ended, started, finished, limits);
            &&& r is Some <==> from is Some && to is Some
            &&& r is Some ==> {
                &&& r->0.schema == "bot-harness-result/v1"@
                &&& r->0.agent == agent
                &&& r->0.command == command
                &&& r->0.result == ended.outcome
                &&& r->0.stop_reason == ended.stop_reason
                &&& ended.message is None ==> r->0.message is None
                &&& ended.message is Some ==> r->0.message == Some(cut_text(ended.message->0))
                &&& r->0.started_at == from->0
                &&& r->0.finished_at == to->0
                &&& r->0.limits == limits
            }
        }),
{
}

/// What went wrong with the transcript is told as such.
pub proof fn law_write_errors_are_told(e: Seq<char>)
    ensures
        write_error_text(e) == "writing the transcript: "@ + e,
{
}

/// Each phase of a session takes the answer that it waits for, whatever that
/// says, and a stop; a session that is being cancelled only that it has wound
/// down, and one that is over nothing.
pub proof fn law_sessions_take_what_they_wait_for(phase: PhaseView, event: EventView)
    ensures
        phase is Initializing ==> (can_come(phase, event) <==> event is Initialized || event
            is Stopped),
        phase is Starting ==> (can_come(phase, event) <==> event is Started || event is Stopped),
        phase is Selecting ==> (can_come(phase, event) <==> event is Selected || event is Stopped),
        phase is Prompted ==> (can_come(phase, event) <==> event is Answered || event is Stopped),
        phase is Cancelling ==> (can_come(phase, event) <==> event is WoundDown),
        phase is Over ==> !can_come(phase, event),
{
}

} // verus!
