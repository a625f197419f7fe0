//! Follows an ACP session from its JSON-RPC messages, in both directions,
//! to produce the condensed log lines (one per event, for the job log) and
//! the numbers summary.json reports. It reads only the protocol, so it
//! works the same for every agent, and the same live as on a recorded
//! `acp.jsonl`.

use crate::json::{
    at, has_field, items_of, json_text, json_views, str_of, str_or, u64_of, Json, JsonView, Number,
    NumberView,
};
use crate::message::{line_after_text, no_line, LineView, MessageLine};
use crate::policy::META_KEY;
use crate::table::Table;
use crate::text::{
    chars_of, cut, cut_text, decimal, has_prefix, lower_char, number, own_opt,
    same, signed_decimal, signed_number, starts_with, string_of,
};
use crate::toolcall::{
    call_views, content_text, content_text_of, display_name_of, error_line, error_line_of,
    exit_status, exit_status_of, merged, new_call, summary_of, CallView, ToolCall,
};
use crate::views::{opt_view, views, views_empty, views_push};
use vstd::prelude::*;

verus! {

broadcast use {views_push, views_empty};

/// Which way a message went.
#[derive(Debug, Clone, Copy, PartialEq, Eq, Structural)]
pub enum Dir {
    /// From the harness to the agent.
    Send,
    /// From the agent to the harness.
    Recv,
}

/// A tool call that was not allowed.
#[derive(Debug, PartialEq)]
pub struct Denial {
    pub tool: String,
    pub summary: String,
    pub rule: Option<String>,
}

/// What a denial holds.
#[verifier::ext_equal]
pub struct DenialView {
    pub tool: Seq<char>,
    pub summary: Seq<char>,
    pub rule: Option<Seq<char>>,
}

impl View for Denial {
    type V = DenialView;

    open spec fn view(&self) -> DenialView {
        DenialView { tool: self.tool@, summary: self.summary@, rule: opt_view(self.rule) }
    }
}

/// The denials of a list.
pub open spec fn denial_views(v: Seq<Denial>) -> Seq<DenialView> {
    Seq::new(v.len(), |i: int| v[i]@)
}

/// A request of the agent's that awaits its response.
#[derive(Debug)]
pub struct Received {
    pub method: String,
    pub params: Json,
}

impl View for Received {
    type V = (Seq<char>, JsonView);

    open spec fn view(&self) -> (Seq<char>, JsonView) {
        (self.method@, self.params@)
    }
}

/// A session as far as it has been followed.
#[derive(Debug)]
pub struct Digest {
    pub cwd: String,
    /// Requests awaiting a response, by JSON-encoded id: the method, for
    /// requests either side sent, and the params of the agent's.
    pub sent: Table<String>,
    pub received: Table<Received>,
    /// The agent message not yet logged: only its first non-blank line
    /// is, so only that is kept, and only as much as the log shows.
    pub text: MessageLine,
    pub calls: Vec<ToolCall>,
    pub agent: Option<String>,
    pub protocol_version: Option<u64>,
    pub session_id: Option<String>,
    pub model: Option<String>,
    pub stop_reason: Option<String>,
    /// The `session/prompt` response's usage, where the agent reports it.
    pub usage: Option<Json>,
    /// The error a request to the agent failed with.
    pub error: Option<String>,
    /// The session's cumulative cost in USD, from `usage_update`.
    pub cost_usd: Option<Number>,
    pub allowed: u64,
    pub denied: Vec<Denial>,
}

/// What a digest holds.
#[verifier::ext_equal]
pub struct DigestView {
    pub cwd: Seq<char>,
    pub sent: Map<Seq<char>, Seq<char>>,
    pub received: Map<Seq<char>, (Seq<char>, JsonView)>,
    pub text: LineView,
    pub calls: Seq<CallView>,
    pub agent: Option<Seq<char>>,
    pub protocol_version: Option<u64>,
    pub session_id: Option<Seq<char>>,
    pub model: Option<Seq<char>>,
    pub stop_reason: Option<Seq<char>>,
    pub usage: Option<JsonView>,
    pub error: Option<Seq<char>>,
    pub cost_usd: Option<NumberView>,
    pub allowed: u64,
    pub denied: Seq<DenialView>,
}

/// The value of an optional JSON value.
pub open spec fn opt_json_view(o: Option<Json>) -> Option<JsonView> {
    match o {
        Some(j) => Some(j@),
        None => None,
    }
}

/// The number of an optional JSON number.
pub open spec fn opt_number_view(o: Option<Number>) -> Option<NumberView> {
    match o {
        Some(n) => Some(n@),
        None => None,
    }
}

impl View for Digest {
    type V = DigestView;

    open spec fn view(&self) -> DigestView {
        DigestView {
            cwd: self.cwd@,
            sent: self.sent@,
            received: self.received@,
            text: self.text@,
            calls: call_views(self.calls@),
            agent: opt_view(self.agent),
            protocol_version: self.protocol_version,
            session_id: opt_view(self.session_id),
            model: opt_view(self.model),
            stop_reason: opt_view(self.stop_reason),
            usage: opt_json_view(self.usage),
            error: opt_view(self.error),
            cost_usd: opt_number_view(self.cost_usd),
            allowed: self.allowed,
            denied: denial_views(self.denied@),
        }
    }
}

/// A session before its first message.
pub open spec fn new_digest() -> DigestView {
    DigestView {
        cwd: Seq::empty(),
        sent: Map::empty(),
        received: Map::empty(),
        text: no_line(),
        calls: Seq::empty(),
        agent: None,
        protocol_version: None,
        session_id: None,
        model: None,
        stop_reason: None,
        usage: None,
        error: None,
        cost_usd: None,
        allowed: 0,
        denied: Seq::empty(),
    }
}

/// A session and the log lines that were produced on the way.
#[verifier::ext_equal]
pub struct Log {
    pub d: DigestView,
    pub out: Seq<Seq<char>>,
}

/// The log after a digest and its lines.
pub open spec fn log_of(d: Digest, out: Vec<String>) -> Log {
    Log { d: d@, out: views(out@) }
}

// ---- What each message does --------------------------------------------

/// Logs the agent message that was held back, if it said anything.
pub open spec fn flushed(l: Log) -> Log {
    Log {
        d: DigestView { text: no_line(), ..l.d },
        out: if l.d.text.said {
            l.out.push(cut_text("» "@ + l.d.text.line))
        } else {
            l.out
        },
    }
}

/// The model of the first of OPTIONS in the category `model`.
pub open spec fn model_option(options: Seq<JsonView>) -> Option<Seq<char>>
    decreases options.len(),
{
    if options.len() == 0 {
        None
    } else if str_of(at(options[0], "category"@)) == Some("model"@) {
        str_of(at(options[0], "currentValue"@))
    } else {
        model_option(options.skip(1))
    }
}

/// The model a session runs: its `model` config option (stable ACP), else
/// the draft `models` state.
pub open spec fn current_model_of(result: JsonView) -> Option<Seq<char>> {
    let option = model_option(items_of(at(result, "configOptions"@)));
    if option is Some {
        option
    } else {
        str_of(at(at(result, "models"@), "currentModelId"@))
    }
}

/// The agent's name, with its version where it gives one.
pub open spec fn agent_of(info: JsonView) -> Option<Seq<char>> {
    match (str_of(at(info, "name"@)), str_of(at(info, "version"@))) {
        (Some(n), Some(v)) => Some(n + " "@ + v),
        (Some(n), None) => Some(n),
        _ => None,
    }
}

/// TEXT, or what stands for none.
pub open spec fn text_or(text: Option<Seq<char>>, default: Seq<char>) -> Seq<char> {
    match text {
        Some(t) => t,
        None => default,
    }
}

/// The agent's response MSG to a request for METHOD.
pub open spec fn responded(l: Log, method: Seq<char>, msg: JsonView) -> Log {
    if has_field(msg, "error"@) {
        let line = cut_text(
            method + " failed: "@ + str_or(at(at(msg, "error"@), "message"@), "unknown error"@),
        );
        Log {
            d: DigestView {
                error: if l.d.error is Some {
                    l.d.error
                } else {
                    Some(line)
                },
                ..l.d
            },
            out: l.out.push("⚠ "@ + line),
        }
    } else {
        let result = at(msg, "result"@);
        if method == "initialize"@ {
            Log {
                d: DigestView {
                    protocol_version: u64_of(at(result, "protocolVersion"@)),
                    agent: agent_of(at(result, "agentInfo"@)),
                    ..l.d
                },
                out: l.out,
            }
        } else if method == "session/new"@ {
            let model = current_model_of(result);
            Log {
                d: DigestView { session_id: str_of(at(result, "sessionId"@)), model, ..l.d },
                out: l.out.push(
                    cut_text(
                        "start: "@ + text_or(l.d.agent, "unknown agent"@) + ", "@ + text_or(
                            model,
                            "default model"@,
                        ) + ", in "@ + l.d.cwd,
                    ),
                ),
            }
        } else if method == "session/set_config_option"@ {
            match current_model_of(result) {
                Some(m) => Log { d: DigestView { model: Some(m), ..l.d }, out: l.out },
                None => l,
            }
        } else if method == "session/prompt"@ {
            let f = flushed(l);
            let stop_reason = str_of(at(result, "stopReason"@));
            Log {
                d: DigestView {
                    stop_reason,
                    usage: if at(result, "usage"@) is Null {
                        f.d.usage
                    } else {
                        Some(at(result, "usage"@))
                    },
                    ..f.d
                },
                out: f.out.push(
                    cut_text(
                        "done: "@ + text_or(stop_reason, "?"@) + ", "@ + decimal(f.d.calls.len())
                            + " tool calls"@,
                    ),
                ),
            }
        } else {
            l
        }
    }
}

/// Where the call ID is among CALLS, or their number.
pub open spec fn call_at(calls: Seq<CallView>, id: Seq<char>) -> nat
    decreases calls.len(),
{
    if calls.len() == 0 || calls[0].id == id {
        0
    } else {
        1 + call_at(calls.skip(1), id)
    }
}

/// Tool kinds whose calls the log shows as edits.
pub open spec fn is_edit(kind: Seq<char>) -> bool {
    kind == "edit"@ || kind == "delete"@ || kind == "move"@
}

/// How a call ended, for the log.
pub open spec fn end_note(exit: Option<int>, failed: bool) -> Seq<char> {
    match exit {
        Some(n) => "exit "@ + signed_decimal(n),
        None => if failed {
            "error"@
        } else {
            "ok"@
        },
    }
}

/// A call's status update: where it says that the call ended, and nothing
/// did before, the call is summed up and logged.
pub open spec fn status_noted(l: Log, i: int, ts: u64, secs: u64, update: JsonView) -> Log {
    let status = str_or(at(update, "status"@), ""@);
    let call = l.d.calls[i];
    if (status != "completed"@ && status != "failed"@) || call.end is Some {
        l
    } else {
        let text = content_text_of(call.content);
        let exit = exit_status_of(text, call.raw_output);
        let failed = status == "failed"@ || (exit is Some && exit->0 != 0);
        let summary = summary_of(call, l.d.cwd);
        let name = display_name_of(call);
        let message = error_line_of(text);
        let ended = CallView {
            summary,
            end: Some(ts),
            duration_s: Some(secs),
            error: Some(failed),
            message: if failed {
                Some(message)
            } else {
                call.message
            },
            ..call
        };
        let line = if is_edit(call.kind) && !failed {
            "✎ "@ + name + " "@ + summary
        } else {
            cut_text(
                "▶ "@ + name + ": "@ + summary + " ("@ + end_note(exit, failed) + ", "@ + decimal(
                    secs as nat,
                ) + "s)"@,
            )
        };
        Log {
            d: DigestView { calls: l.d.calls.update(i, ended), ..l.d },
            out: if failed {
                l.out.push(line).push(cut_text("⚠ tool error: "@ + name + ": "@ + message))
            } else {
                l.out.push(line)
            },
        }
    }
}

/// The call at I takes over what UPDATE says of it.
pub open spec fn call_updated(l: Log, i: int, ts: u64, secs: u64, update: JsonView) -> Log {
    status_noted(
        Log {
            d: DigestView { calls: l.d.calls.update(i, merged(l.d.calls[i], update)), ..l.d },
            out: l.out,
        },
        i,
        ts,
        secs,
        update,
    )
}

/// Whether a cost's currency counts: the budget is in AIC, so only a cost
/// in USD does, and one that names no currency.
pub open spec fn counts_as_usd(currency: JsonView) -> bool {
    match str_of(currency) {
        None => true,
        Some(c) => c.len() == 3 && lower_char(c[0]) == 'u' && lower_char(c[1]) == 's'
            && lower_char(c[2]) == 'd',
    }
}

/// A `session/update` notification. ELAPSED_S is how many whole seconds ago
/// the call that it names started, where it was seen before.
pub open spec fn updated(l: Log, ts: u64, elapsed_s: u64, update: JsonView) -> Log {
    let kind = str_or(at(update, "sessionUpdate"@), ""@);
    let id = str_or(at(update, "toolCallId"@), ""@);
    let i = call_at(l.d.calls, id);
    let known = i < l.d.calls.len();
    if kind == "agent_message_chunk"@ {
        match str_of(at(at(update, "content"@), "text"@)) {
            Some(t) => Log {
                d: DigestView { text: line_after_text(l.d.text, t), ..l.d },
                out: l.out,
            },
            None => l,
        }
    } else {
        let f = flushed(l);
        if kind == "tool_call"@ {
            if known {
                call_updated(f, i as int, ts, elapsed_s, update)
            } else {
                call_updated(
                    Log {
                        d: DigestView { calls: f.d.calls.push(new_call(id, ts)), ..f.d },
                        out: f.out,
                    },
                    i as int,
                    ts,
                    0,
                    update,
                )
            }
        } else if kind == "tool_call_update"@ {
            if known {
                call_updated(f, i as int, ts, elapsed_s, update)
            } else {
                f
            }
        } else if kind == "usage_update"@ {
            let cost = at(update, "cost"@);
            if counts_as_usd(at(cost, "currency"@)) && at(cost, "amount"@) is Number {
                Log {
                    d: DigestView { cost_usd: Some(at(cost, "amount"@)->Number_0), ..f.d },
                    out: f.out,
                }
            } else {
                f
            }
        } else if kind == "plan"@ {
            Log {
                d: f.d,
                out: f.out.push(
                    "plan: "@ + decimal(items_of(at(update, "entries"@)).len()) + " entries"@,
                ),
            }
        } else {
            f
        }
    }
}

/// The kind of the first of OPTIONS whose id is SELECTED.
pub open spec fn option_kind(options: Seq<JsonView>, selected: Seq<char>) -> Option<Seq<char>>
    decreases options.len(),
{
    if options.len() == 0 {
        None
    } else if str_of(at(options[0], "optionId"@)) == Some(selected) {
        str_of(at(options[0], "kind"@))
    } else {
        option_kind(options.skip(1), selected)
    }
}

/// The kind of the option that a permission response selects, among those
/// of the request.
pub open spec fn selected_kind(params: JsonView, result: JsonView) -> Seq<char> {
    match str_of(at(at(result, "outcome"@), "optionId"@)) {
        Some(id) => text_or(option_kind(items_of(at(params, "options"@)), id), "cancelled"@),
        None => "cancelled"@,
    }
}

/// What is known of the call that a permission request is about: the
/// request may carry less than the tool call.
pub open spec fn asked_call(d: DigestView, call: JsonView) -> CallView {
    merged(
        match str_of(at(call, "toolCallId"@)) {
            Some(id) => if call_at(d.calls, id) < d.calls.len() {
                d.calls[call_at(d.calls, id) as int]
            } else {
                new_call(Seq::empty(), 0)
            },
            None => new_call(Seq::empty(), 0),
        },
        call,
    )
}

/// What a denial is put down to, for the log.
pub open spec fn rule_note(rule: Option<Seq<char>>) -> Seq<char> {
    match rule {
        Some(r) => "rule "@ + r,
        None => "default"@,
    }
}

/// The harness's answer RESULT to a permission request.
pub open spec fn permission_noted(l: Log, params: JsonView, result: JsonView) -> Log {
    if has_prefix(selected_kind(params, result), "allow"@) {
        Log { d: DigestView { allowed: (l.d.allowed + 1) as u64, ..l.d }, out: l.out }
    } else {
        let call = asked_call(l.d, at(params, "toolCall"@));
        let summary = summary_of(call, l.d.cwd);
        let name = display_name_of(call);
        let rule = str_of(at(at(at(result, "_meta"@), META_KEY@), "rule"@));
        Log {
            d: DigestView {
                denied: l.d.denied.push(DenialView { tool: name, summary, rule }),
                ..l.d
            },
            out: l.out.push(
                cut_text("⛔ denied "@ + name + ": "@ + summary + " ("@ + rule_note(rule) + ")"@),
            ),
        }
    }
}

/// The id of a message; null without one.
pub open spec fn id_of(msg: JsonView) -> JsonView {
    at(msg, "id"@)
}

/// A request or notification for METHOD that the harness sent.
pub open spec fn request_sent(l: Log, method: Seq<char>, msg: JsonView) -> Log {
    let noted = if id_of(msg) is Null {
        l
    } else {
        Log {
            d: DigestView { sent: l.d.sent.insert(json_text(id_of(msg)), method), ..l.d },
            out: l.out,
        }
    };
    if method == "session/new"@ {
        match str_of(at(at(msg, "params"@), "cwd"@)) {
            Some(cwd) => Log { d: DigestView { cwd, ..noted.d }, out: noted.out },
            None => noted,
        }
    } else if method == "session/cancel"@ {
        let f = flushed(noted);
        Log { d: f.d, out: f.out.push("⚠ cancelling the session"@) }
    } else {
        noted
    }
}

/// A request or notification for METHOD that the agent sent.
pub open spec fn request_received(
    l: Log,
    ts: u64,
    elapsed_s: u64,
    method: Seq<char>,
    msg: JsonView,
) -> Log {
    let noted = if id_of(msg) is Null {
        l
    } else {
        Log {
            d: DigestView {
                received: l.d.received.insert(
                    json_text(id_of(msg)),
                    (method, at(msg, "params"@)),
                ),
                ..l.d
            },
            out: l.out,
        }
    };
    if method == "session/update"@ {
        updated(noted, ts, elapsed_s, at(at(msg, "params"@), "update"@))
    } else {
        noted
    }
}

/// A response that the harness sent.
pub open spec fn response_sent(l: Log, msg: JsonView) -> Log {
    let key = json_text(id_of(msg));
    if l.d.received.dom().contains(key) {
        let (method, params) = l.d.received[key];
        let answered = Log {
            d: DigestView { received: l.d.received.remove(key), ..l.d },
            out: l.out,
        };
        if method == "session/request_permission"@ {
            permission_noted(answered, params, at(msg, "result"@))
        } else {
            answered
        }
    } else {
        l
    }
}

/// A response that the agent sent.
pub open spec fn response_received(l: Log, msg: JsonView) -> Log {
    let key = json_text(id_of(msg));
    if l.d.sent.dom().contains(key) {
        responded(
            Log { d: DigestView { sent: l.d.sent.remove(key), ..l.d }, out: l.out },
            l.d.sent[key],
            msg,
        )
    } else {
        l
    }
}

/// One JSON-RPC message.
pub open spec fn fed(l: Log, ts: u64, elapsed_s: u64, dir: Dir, msg: JsonView) -> Log {
    match (dir, str_of(at(msg, "method"@))) {
        (Dir::Send, Some(m)) => request_sent(l, m, msg),
        (Dir::Recv, Some(m)) => request_received(l, ts, elapsed_s, m, msg),
        (Dir::Send, None) => if id_of(msg) is Null {
            l
        } else {
            response_sent(l, msg)
        },
        (Dir::Recv, None) => if id_of(msg) is Null {
            l
        } else {
            response_received(l, msg)
        },
    }
}

/// When the call that a `session/update` message names started, where it
/// was seen before.
pub open spec fn started_of(d: DigestView, msg: JsonView) -> Option<u64> {
    if str_of(at(msg, "method"@)) == Some("session/update"@) {
        let id = str_or(at(at(at(msg, "params"@), "update"@), "toolCallId"@), ""@);
        if call_at(d.calls, id) < d.calls.len() {
            Some(d.calls[call_at(d.calls, id) as int].start)
        } else {
            None
        }
    } else {
        None
    }
}

// ---- Following a session -----------------------------------------------

fn id_key(v: &Json) -> (r: String)
    ensures
        r@ == json_text(v@),
{
    v.to_text()
}

pub proof fn lemma_call_at(calls: Seq<CallView>, id: Seq<char>)
    ensures
        call_at(calls, id) <= calls.len(),
        call_at(calls, id) < calls.len() ==> calls[call_at(calls, id) as int].id == id,
        forall|i: int| 0 <= i < call_at(calls, id) ==> (#[trigger] calls[i]).id != id,
    decreases calls.len(),
{
    if calls.len() > 0 && calls[0].id != id {
        lemma_call_at(calls.skip(1), id);
        assert forall|i: int| 0 <= i < call_at(calls, id) implies (#[trigger] calls[i]).id
            != id by {
            if i > 0 {
                assert(calls.skip(1)[i - 1] == calls[i]);
            }
        }
    }
}

pub proof fn lemma_call_at_is(calls: Seq<CallView>, id: Seq<char>, n: nat)
    requires
        n <= calls.len(),
        n < calls.len() ==> calls[n as int].id == id,
        forall|i: int| 0 <= i < n ==> (#[trigger] calls[i]).id != id,
    ensures
        call_at(calls, id) == n,
{
    lemma_call_at(calls, id);
    let m = call_at(calls, id);
    if m < n {
        assert(calls[m as int].id != id);
    }
    if n < m {
        assert(calls[n as int].id != id);
    }
}

/// The model a session runs.
pub fn current_model(result: &Json) -> (r: Option<String>)
    ensures
        opt_view(r) == current_model_of(result@),
{
    if let Some(options) = result.at("configOptions").as_array() {
        let ghost all = json_views(options@);
        let mut i: usize = 0;
        assert(all.skip(0) =~= all);
        while i < options.len()
            invariant
                i <= options@.len(),
                all == json_views(options@),
                all == items_of(at(result@, "configOptions"@)),
                model_option(all) == model_option(all.skip(i as int)),
            decreases options@.len() - i,
        {
            assert(all.skip(i as int)[0] == options@[i as int]@);
            if let Some(c) = options[i].at("category").as_str() {
                if same(c, "model") {
                    if let Some(m) = options[i].at("currentValue").as_str() {
                        return Some(m.to_owned());
                    }
                    return own_opt(result.at("models").at("currentModelId").as_str());
                }
            }
            assert(all.skip(i as int).skip(1) =~= all.skip(i + 1));
            i += 1;
        }
    }
    own_opt(result.at("models").at("currentModelId").as_str())
}

fn agent_name(info: &Json) -> (r: Option<String>)
    ensures
        opt_view(r) == agent_of(info@),
{
    match info.at("name").as_str() {
        Some(n) => {
            let mut s = n.to_owned();
            if let Some(v) = info.at("version").as_str() {
                s.append(" ");
                s.append(v);
            }
            Some(s)
        },
        None => None,
    }
}

fn str_of_opt<'a>(text: &'a Option<String>, default: &'a str) -> (r: &'a str)
    ensures
        r@ == text_or(opt_view(*text), default@),
{
    match text {
        Some(t) => t.as_str(),
        None => default,
    }
}

fn edit_kind(kind: &str) -> (r: bool)
    ensures
        r == is_edit(kind@),
{
    same(kind, "edit") || same(kind, "delete") || same(kind, "move")
}

fn note_of(exit: Option<i64>, failed: bool) -> (r: String)
    ensures
        r@ == end_note(
            match exit {
                Some(n) => Some(n as int),
                None => None,
            },
            failed,
        ),
{
    match exit {
        Some(n) => {
            let mut s = "exit ".to_owned();
            s.append(signed_number(n).as_str());
            s
        },
        None => if failed {
            "error".to_owned()
        } else {
            "ok".to_owned()
        },
    }
}

fn usd(currency: &Json) -> (r: bool)
    ensures
        r == counts_as_usd(currency@),
{
    match currency.as_str() {
        None => true,
        Some(c) => {
            let v = chars_of(c);
            v.len() == 3 && (v[0] == 'u' || v[0] == 'U') && (v[1] == 's' || v[1] == 'S') && (v[2]
                == 'd' || v[2] == 'D')
        },
    }
}

fn kind_of_option(options: &Json, selected: &str) -> (r: Option<String>)
    ensures
        opt_view(r) == option_kind(items_of(options@), selected@),
{
    if let Some(list) = options.as_array() {
        let ghost all = json_views(list@);
        let mut i: usize = 0;
        assert(all.skip(0) =~= all);
        while i < list.len()
            invariant
                i <= list@.len(),
                all == json_views(list@),
                all == items_of(options@),
                option_kind(all, selected@) == option_kind(all.skip(i as int), selected@),
            decreases list@.len() - i,
        {
            assert(all.skip(i as int)[0] == list@[i as int]@);
            if let Some(id) = list[i].at("optionId").as_str() {
                if same(id, selected) {
                    return own_opt(list[i].at("kind").as_str());
                }
            }
            assert(all.skip(i as int).skip(1) =~= all.skip(i + 1));
            i += 1;
        }
    }
    None
}

fn kind_selected(params: &Json, result: &Json) -> (r: String)
    ensures
        r@ == selected_kind(params@, result@),
{
    match result.at("outcome").at("optionId").as_str() {
        Some(id) => match kind_of_option(params.at("options"), id) {
            Some(k) => k,
            None => "cancelled".to_owned(),
        },
        None => "cancelled".to_owned(),
    }
}

impl Digest {
    pub fn new() -> (r: Digest)
        ensures
            r@ == new_digest(),
    {
        Digest {
            cwd: String::new(),
            sent: Table::new(),
            received: Table::new(),
            text: MessageLine::new(),
            calls: Vec::new(),
            agent: None,
            protocol_version: None,
            session_id: None,
            model: None,
            stop_reason: None,
            usage: None,
            error: None,
            cost_usd: None,
            allowed: 0,
            denied: Vec::new(),
        }
    }

    /// Where the call ID is, or how many there are.
    fn find_call(&self, id: &str) -> (r: usize)
        ensures
            r == call_at(self@.calls, id@),
            r <= self.calls@.len(),
    {
        let mut i: usize = 0;
        while i < self.calls.len() && !same(self.calls[i].id.as_str(), id)
            invariant
                i <= self.calls@.len(),
                forall|k: int| 0 <= k < i ==> (#[trigger] self@.calls[k]).id != id@,
            decreases self.calls@.len() - i,
        {
            i += 1;
        }
        proof {
            lemma_call_at_is(self@.calls, id@, i as nat);
        }
        i
    }

    /// When the tool call that MSG, an update of the session's, is about
    /// started: none unless the call was seen before.
    pub fn started(&self, msg: &Json) -> (r: Option<u64>)
        ensures
            r == started_of(self@, msg@),
    {
        if let Some(m) = msg.at("method").as_str() {
            if same(m, "session/update") {
                let id = msg.at("params").at("update").at("toolCallId").str_or("");
                let i = self.find_call(id);
                if i < self.calls.len() {
                    return Some(self.calls[i].start);
                }
            }
        }
        None
    }

    /// Feeds one JSON-RPC message, at the time TS; returns the log lines it
    /// produced. ELAPSED_S: the whole seconds from when the call that the
    /// message is about `started` up to TS.
    pub fn feed(&mut self, ts: u64, elapsed_s: u64, dir: Dir, msg: &Json) -> (out: Vec<String>)
        requires
            old(self).allowed < u64::MAX,
        ensures
            log_of(*final(self), out) == fed(
                Log { d: old(self)@, out: Seq::empty() },
                ts,
                elapsed_s,
                dir,
                msg@,
            ),
    {
        let mut out: Vec<String> = Vec::new();
        let id = msg.at("id");
        match (dir, msg.at("method").as_str()) {
            // A request (or notification) the harness sent.
            (Dir::Send, Some(m)) => {
                if !id.is_null() {
                    self.sent.insert(id_key(id), m.to_owned());
                }
                if same(m, "session/new") {
                    if let Some(cwd) = msg.at("params").at("cwd").as_str() {
                        self.cwd = cwd.to_owned();
                    }
                } else if same(m, "session/cancel") {
                    self.flush_text(&mut out);
                    out.push("⚠ cancelling the session".to_owned());
                }
            },
            // The harness's response to a request of the agent's.
            (Dir::Send, None) => {
                if !id.is_null() {
                    if let Some(r) = self.received.remove(id_key(id).as_str()) {
                        if same(r.method.as_str(), "session/request_permission") {
                            self.permission(&r.params, msg.at("result"), &mut out);
                        }
                    }
                }
            },
            // A request or notification from the agent.
            (Dir::Recv, Some(m)) => {
                if !id.is_null() {
                    let r = Received { method: m.to_owned(), params: msg.at("params").copy() };
                    self.received.insert(id_key(id), r);
                }
                if same(m, "session/update") {
                    self.update(ts, elapsed_s, msg.at("params").at("update"), &mut out);
                }
            },
            // The agent's response to a request of the harness's.
            (Dir::Recv, None) => {
                if !id.is_null() {
                    if let Some(m) = self.sent.remove(id_key(id).as_str()) {
                        self.response(m.as_str(), msg, &mut out);
                    }
                }
            },
        }
        out
    }

    /// Logs what's left at the end of the session.
    pub fn finish(&mut self) -> (out: Vec<String>)
        ensures
            log_of(*final(self), out) == flushed(Log { d: old(self)@, out: Seq::empty() }),
    {
        let mut out: Vec<String> = Vec::new();
        self.flush_text(&mut out);
        out
    }

    fn response(&mut self, method: &str, msg: &Json, out: &mut Vec<String>)
        ensures
            log_of(*final(self), *final(out)) == responded(
                log_of(*old(self), *old(out)),
                method@,
                msg@,
            ),
    {
        if let Some(e) = msg.get("error") {
            let mut text = method.to_owned();
            text.append(" failed: ");
            text.append(e.at("message").str_or("unknown error"));
            let line = cut(text.as_str());
            let mut logged = "⚠ ".to_owned();
            logged.append(line.as_str());
            out.push(logged);
            if self.error.is_none() {
                self.error = Some(line);
            }
            return ;
        }
        let result = msg.at("result");
        if same(method, "initialize") {
            self.protocol_version = result.at("protocolVersion").as_u64();
            self.agent = agent_name(result.at("agentInfo"));
        } else if same(method, "session/new") {
            self.session_id = own_opt(result.at("sessionId").as_str());
            self.model = current_model(result);
            let mut line = "start: ".to_owned();
            line.append(str_of_opt(&self.agent, "unknown agent"));
            line.append(", ");
            line.append(str_of_opt(&self.model, "default model"));
            line.append(", in ");
            line.append(self.cwd.as_str());
            out.push(cut(line.as_str()));
        } else if same(method, "session/set_config_option") {
            let model = current_model(result);
            if model.is_some() {
                self.model = model;
            }
        } else if same(method, "session/prompt") {
            self.flush_text(out);
            self.stop_reason = own_opt(result.at("stopReason").as_str());
            let usage = result.at("usage");
            if !usage.is_null() {
                self.usage = Some(usage.copy());
            }
            let mut line = "done: ".to_owned();
            line.append(str_of_opt(&self.stop_reason, "?"));
            line.append(", ");
            line.append(number(self.calls.len() as u64).as_str());
            line.append(" tool calls");
            out.push(cut(line.as_str()));
        }
    }

    fn update(&mut self, ts: u64, elapsed_s: u64, update: &Json, out: &mut Vec<String>)
        ensures
            log_of(*final(self), *final(out)) == updated(
                log_of(*old(self), *old(out)),
                ts,
                elapsed_s,
                update@,
            ),
    {
        let kind = update.at("sessionUpdate").str_or("");
        if same(kind, "agent_message_chunk") {
            if let Some(t) = update.at("content").at("text").as_str() {
                self.text.push(t);
            }
            return ;
        }
        self.flush_text(out);
        if same(kind, "tool_call") {
            let id = update.at("toolCallId").str_or("");
            let i = self.find_call(id);
            // A repeated tool_call updates the one already seen.
            if i < self.calls.len() {
                self.call_update(i, ts, elapsed_s, update, out);
            } else {
                self.calls.push(ToolCall::new(id.to_owned(), ts));
                self.call_update(i, ts, 0, update, out);
            }
        } else if same(kind, "tool_call_update") {
            let id = update.at("toolCallId").str_or("");
            let i = self.find_call(id);
            if i < self.calls.len() {
                self.call_update(i, ts, elapsed_s, update, out);
            }
        } else if same(kind, "usage_update") {
            let cost = update.at("cost");
            if usd(cost.at("currency")) {
                if let Json::Number(a) = cost.at("amount") {
                    self.cost_usd = Some(a.copy());
                }
            }
        } else if same(kind, "plan") {
            let n: usize = match update.at("entries").as_array() {
                Some(a) => a.len(),
                None => 0,
            };
            let mut line = "plan: ".to_owned();
            line.append(number(n as u64).as_str());
            line.append(" entries");
            out.push(line);
        }
    }

    fn call_update(
        &mut self,
        i: usize,
        ts: u64,
        secs: u64,
        update: &Json,
        out: &mut Vec<String>,
    )
        requires
            i < old(self).calls@.len(),
        ensures
            log_of(*final(self), *final(out)) == call_updated(
                log_of(*old(self), *old(out)),
                i as int,
                ts,
                secs,
                update@,
            ),
    {
        self.calls[i].merge(update);
        self.tool_status(i, ts, secs, update, out);
    }

    fn tool_status(
        &mut self,
        i: usize,
        ts: u64,
        secs: u64,
        update: &Json,
        out: &mut Vec<String>,
    )
        requires
            i < old(self).calls@.len(),
        ensures
            log_of(*final(self), *final(out)) == status_noted(
                log_of(*old(self), *old(out)),
                i as int,
                ts,
                secs,
                update@,
            ),
    {
        let status = update.at("status").str_or("");
        if (!same(status, "completed") && !same(status, "failed")) || self.calls[i].end.is_some() {
            return ;
        }
        let mut call = self.calls[i].copy();
        call.finish_summary(self.cwd.as_str());
        let text = content_text(&call.content);
        let exit = exit_status(text.as_str(), &call.raw_output);
        let nonzero = match exit {
            Some(n) => n != 0,
            None => false,
        };
        let failed = same(status, "failed") || nonzero;
        call.end = Some(ts);
        call.duration_s = Some(secs);
        call.error = Some(failed);
        let name = call.display_name();
        if edit_kind(call.kind.as_str()) && !failed {
            let mut line = "✎ ".to_owned();
            line.append(name.as_str());
            line.append(" ");
            line.append(call.summary.as_str());
            out.push(line);
        } else {
            let mut line = "▶ ".to_owned();
            line.append(name.as_str());
            line.append(": ");
            line.append(call.summary.as_str());
            line.append(" (");
            line.append(note_of(exit, failed).as_str());
            line.append(", ");
            line.append(number(secs).as_str());
            line.append("s)");
            out.push(cut(line.as_str()));
        }
        if failed {
            let message = error_line(text.as_str());
            let mut line = "⚠ tool error: ".to_owned();
            line.append(name.as_str());
            line.append(": ");
            line.append(message.as_str());
            out.push(cut(line.as_str()));
            call.message = Some(message);
        }
        self.calls.set(i, call);
    }

    fn permission(&mut self, params: &Json, result: &Json, out: &mut Vec<String>)
        requires
            old(self).allowed < u64::MAX,
        ensures
            log_of(*final(self), *final(out)) == permission_noted(
                log_of(*old(self), *old(out)),
                params@,
                result@,
            ),
    {
        let kind = kind_selected(params, result);
        if starts_with(kind.as_str(), "allow") {
            self.allowed = self.allowed + 1;
            return ;
        }
        let call = params.at("toolCall");
        let mut tc = ToolCall::new(String::new(), 0);
        // The permission request may carry less than the tool call.
        if let Some(id) = call.at("toolCallId").as_str() {
            let i = self.find_call(id);
            if i < self.calls.len() {
                tc = self.calls[i].copy();
            }
        }
        tc.merge(call);
        tc.finish_summary(self.cwd.as_str());
        let rule = own_opt(result.at("_meta").at(META_KEY).at("rule").as_str());
        let name = tc.display_name();
        let mut line = "⛔ denied ".to_owned();
        line.append(name.as_str());
        line.append(": ");
        line.append(tc.summary.as_str());
        line.append(" (");
        let note: String = match &rule {
            Some(r) => {
                let mut s = "rule ".to_owned();
                s.append(r.as_str());
                s
            },
            None => "default".to_owned(),
        };
        line.append(note.as_str());
        line.append(")");
        out.push(cut(line.as_str()));
        self.denied.push(Denial { tool: name, summary: tc.summary, rule });
    }

    fn flush_text(&mut self, out: &mut Vec<String>)
        ensures
            log_of(*final(self), *final(out)) == flushed(log_of(*old(self), *old(out))),
    {
        if self.text.said {
            let mut line = "» ".to_owned();
            line.append(string_of(&self.text.line, 0, self.text.line.len()).as_str());
            assert(self.text.line@.subrange(0, self.text.line@.len() as int) =~= self.text.line@);
            out.push(cut(line.as_str()));
        }
        self.text = MessageLine::new();
    }
}

} // verus!
