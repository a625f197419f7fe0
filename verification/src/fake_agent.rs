//! A scripted agent speaking the Agent Client Protocol, with no model behind
//! it. It plays a fixed session, so agent.yml can run end to end (the
//! harness, the sandbox, the permission policy and the redaction pass)
//! without inference or credentials, and bot-harness's tests can drive it
//! through what real agents don't readily do. It writes the JSON-RPC by
//! hand rather than through the SDK, so it can misbehave.
//!
//! ```text
//! fake-acp-agent demo          play the built-in session
//! fake-acp-agent script FILE   play the session in FILE
//! fake-acp-agent fs            send fs/* and terminal/* requests the client
//!                              doesn't advertise, expecting each answered
//! fake-acp-agent flood N       send N agent_message_chunk notifications
//! fake-acp-agent grace         make three tool calls, then ask permission
//!                              after the client must have cancelled the
//!                              session (run with --max-tool-calls 2)
//! fake-acp-agent slow-init     never answer initialize
//! ```
//!
//! A session is a JSON list of steps, run in order in `session/prompt`,
//! each tool call behind a `session/request_permission`:
//!
//! ```json
//! [{"say": "text"},
//!  {"execute": {"title": "Bash", "command": "git status"}},
//!  {"read": {"title": "Read", "path": "{cwd}/README.md", "lines": 5}},
//!  {"write": {"title": "Write", "path": "{cwd}/x", "content": "..."}},
//!  {"cost": {"usd": 0.01}}]
//! ```
//!
//! `{cwd}` is the session's working directory and `{home}` is `$HOME`.
//! Commands run with `sh -c` in the session's working directory.

use crate::json::{
    at, has_field, i64_of, items_of, json_views, lemma_array_view, lemma_at_put, opt_unsigned_json,
    put, signed_json, str_of, str_or, u64_of, unsigned_json, Fields, Json, JsonView,
};
use crate::policy::{option_of, picked, Decision};
use crate::text::{
    chars_of, decimal, decode, has_prefix, join, joined, law_numbers_read_back, lines, lines_of,
    number, same, string_of, unsigned_value, utf8_text,
};
use crate::toolcall::{content_text_of, law_content_is_its_text_blocks};
use crate::views::{opt_str, views, views_empty, views_push};
use vstd::prelude::*;

verus! {

broadcast use {views_push, views_empty, lemma_array_view};

pub const NAME: &'static str = "fake-acp-agent";

pub const SESSION: &'static str = "fake-session";

pub const MODEL_OPTION: &'static str = "model";

pub const DEFAULT_MODEL: &'static str = "fake";

/// How long a scripted request waits for the client's answer, in seconds.
pub const ANSWER_TIMEOUT_S: u64 = 60;

/// How long `fs` mode waits for each answer, in seconds: an unanswered
/// request hangs.
pub const FS_TIMEOUT_S: u64 = 5;

/// How long `grace` mode waits before its late permission request, in
/// seconds.
pub const GRACE_DELAY_S: u64 = 1;

pub const ALLOW: &'static str = "allow";

pub const REJECT: &'static str = "reject";

// ---- Modes -------------------------------------------------------------

/// A step of a session.
#[derive(Debug)]
pub enum Step {
    Say(String),
    Execute { title: String, command: String },
    Read { title: String, path: String, lines: Option<u64> },
    Write { title: String, path: String, content: String },
    /// What the session has cost, as a JSON number.
    Cost { usd: Json },
}

/// What the agent was started to do.
#[derive(Debug)]
pub enum Mode {
    /// Play the built-in session.
    Demo,
    /// Play the session in a file.
    Script(String),
    Fs,
    Flood(usize),
    Grace,
    SlowInit,
}

/// What the agent was started to do.
pub enum ModeView {
    Demo,
    Script(Seq<char>),
    Fs,
    Flood(nat),
    Grace,
    SlowInit,
}

impl View for Mode {
    type V = ModeView;

    open spec fn view(&self) -> ModeView {
        match self {
            Mode::Demo => ModeView::Demo,
            Mode::Script(file) => ModeView::Script(file@),
            Mode::Fs => ModeView::Fs,
            Mode::Flood(n) => ModeView::Flood(*n as nat),
            Mode::Grace => ModeView::Grace,
            Mode::SlowInit => ModeView::SlowInit,
        }
    }
}

/// How the agent is to be started.
pub open spec fn usage_text() -> Seq<char> {
    "usage: fake-acp-agent demo | script FILE | fs | flood N | grace | slow-init"@
}

/// The error of `str::parse::<usize>` on a text that is no count, in words.
pub uninterp spec fn count_error(text: Seq<char>) -> Seq<char>;

/// `str::parse::<usize>`: the number that decimal digits write, with or
/// without a plus sign, where a `usize` holds it; else its error in words.
#[verifier::external_body]
fn parse_count(text: &str) -> (r: Result<usize, String>)
    ensures
        match r {
            Ok(n) => unsigned_value(text@, usize::MAX as nat) == Some(n as nat),
            Err(e) => unsigned_value(text@, usize::MAX as nat) is None && e@ == count_error(text@),
        },
{
    text.parse::<usize>().map_err(|e| e.to_string())
}

/// The mode that the arguments ask for.
pub open spec fn mode_of(args: Seq<Seq<char>>) -> Result<ModeView, Seq<char>> {
    if args.len() == 1 && args[0] == "demo"@ {
        Ok(ModeView::Demo)
    } else if args.len() == 2 && args[0] == "script"@ {
        Ok(ModeView::Script(args[1]))
    } else if args.len() == 1 && args[0] == "fs"@ {
        Ok(ModeView::Fs)
    } else if args.len() == 2 && args[0] == "flood"@ {
        match unsigned_value(args[1], usize::MAX as nat) {
            Some(n) => Ok(ModeView::Flood(n)),
            None => Err("flood: bad count "@ + args[1] + ": "@ + count_error(args[1])),
        }
    } else if args.len() == 1 && args[0] == "grace"@ {
        Ok(ModeView::Grace)
    } else if args.len() == 1 && args[0] == "slow-init"@ {
        Ok(ModeView::SlowInit)
    } else {
        Err(usage_text())
    }
}

pub fn parse_mode(args: &Vec<String>) -> (r: Result<Mode, String>)
    ensures
        match r {
            Ok(m) => mode_of(views(args@)) == Ok::<ModeView, Seq<char>>(m@),
            Err(e) => mode_of(views(args@)) == Err::<ModeView, Seq<char>>(e@),
        },
{
    assert(views(args@).len() == args@.len());
    if args.len() == 1 && same(args[0].as_str(), "demo") {
        Ok(Mode::Demo)
    } else if args.len() == 2 && same(args[0].as_str(), "script") {
        Ok(Mode::Script(args[1].clone()))
    } else if args.len() == 1 && same(args[0].as_str(), "fs") {
        Ok(Mode::Fs)
    } else if args.len() == 2 && same(args[0].as_str(), "flood") {
        match parse_count(args[1].as_str()) {
            Ok(n) => Ok(Mode::Flood(n)),
            Err(e) => {
                let mut s = "flood: bad count ".to_owned();
                s.append(args[1].as_str());
                s.append(": ");
                s.append(e.as_str());
                Err(s)
            },
        }
    } else if args.len() == 1 && same(args[0].as_str(), "grace") {
        Ok(Mode::Grace)
    } else if args.len() == 1 && same(args[0].as_str(), "slow-init") {
        Ok(Mode::SlowInit)
    } else {
        Err(
            "usage: fake-acp-agent demo | script FILE | fs | flood N | grace | slow-init".to_owned(),
        )
    }
}

// ---- Messages ----------------------------------------------------------

/// Fields with one more.
pub open spec fn field(key: Seq<char>, value: JsonView) -> Seq<(Seq<char>, JsonView)> {
    put(Seq::empty(), key, value)
}

/// The start of every message.
pub open spec fn rpc() -> Seq<(Seq<char>, JsonView)> {
    field("jsonrpc"@, JsonView::Str("2.0"@))
}

fn rpc_fields() -> (r: Fields)
    ensures
        r@ == rpc(),
{
    Fields::new().with("jsonrpc", Json::text("2.0"))
}

/// The response to the request ID.
pub open spec fn response_json(id: JsonView, result: JsonView) -> JsonView {
    JsonView::Object(put(put(rpc(), "id"@, id), "result"@, result))
}

/// The response to the request ID.
pub fn response(id: &Json, result: Json) -> (r: Json)
    ensures
        r@ == response_json(id@, result@),
{
    Json::Object(rpc_fields().with("id", id.copy()).with("result", result))
}

/// A session update.
pub open spec fn update_json(update: JsonView) -> JsonView {
    JsonView::Object(
        put(
            put(rpc(), "method"@, JsonView::Str("session/update"@)),
            "params"@,
            JsonView::Object(
                put(field("sessionId"@, JsonView::Str(SESSION@)), "update"@, update),
            ),
        ),
    )
}

/// A session update.
pub fn update_message(update: Json) -> (r: Json)
    ensures
        r@ == update_json(update@),
{
    let params = Fields::new().with("sessionId", Json::text(SESSION)).with("update", update);
    Json::Object(
        rpc_fields().with("method", Json::text("session/update")).with(
            "params",
            Json::Object(params),
        ),
    )
}

/// The request ID for METHOD.
pub open spec fn request_json(id: u64, method: Seq<char>, params: JsonView) -> JsonView {
    JsonView::Object(
        put(
            put(put(rpc(), "id"@, unsigned_json(id)), "method"@, JsonView::Str(method)),
            "params"@,
            params,
        ),
    )
}

/// The connection to the client, as far as it is known.
#[derive(Debug)]
pub struct Conn {
    pub next_id: u64,
    /// The client sent session/cancel.
    pub cancelled: bool,
}

/// MSG cancels the session.
pub open spec fn is_cancel(msg: JsonView) -> bool {
    str_of(at(msg, "method"@)) == Some("session/cancel"@)
}

/// MSG is the response to the request ID.
pub open spec fn answers(msg: JsonView, id: u64) -> bool {
    u64_of(at(msg, "id"@)) == Some(id) && !has_field(msg, "method"@)
}

impl Conn {
    pub fn new() -> (r: Conn)
        ensures
            r.next_id == 1,
            !r.cancelled,
    {
        Conn { next_id: 1, cancelled: false }
    }

    /// Takes in a message of the client's.
    pub fn heard(&mut self, msg: &Json)
        ensures
            final(self).next_id == old(self).next_id,
            final(self).cancelled == (old(self).cancelled || is_cancel(msg@)),
    {
        if let Some(m) = msg.at("method").as_str() {
            if same(m, "session/cancel") {
                self.cancelled = true;
            }
        }
    }

    /// A new request: its id and the message.
    pub fn request(&mut self, method: &str, params: Json) -> (r: (u64, Json))
        requires
            old(self).next_id < u64::MAX,
        ensures
            r.0 == old(self).next_id,
            r.1@ == request_json(old(self).next_id, method@, params@),
            final(self).next_id == old(self).next_id + 1,
            final(self).cancelled == old(self).cancelled,
    {
        let id = self.next_id;
        self.next_id = id + 1;
        let msg = rpc_fields().with("id", Json::unsigned(id)).with("method", Json::text(method)).with(
            "params",
            params,
        );
        (id, Json::Object(msg))
    }
}

/// Whether MSG is the response to the request ID.
pub fn is_answer(msg: &Json, id: u64) -> (r: bool)
    ensures
        r == answers(msg@, id),
{
    match msg.at("id").as_u64() {
        Some(n) => n == id && msg.get("method").is_none(),
        None => false,
    }
}

/// What is said of a request without a response.
pub fn no_answer(method: &str, id: u64) -> (r: String)
    ensures
        r@ == "no response to "@ + method@ + " (request "@ + decimal(id as nat) + ")"@,
{
    let mut s = "no response to ".to_owned();
    s.append(method);
    s.append(" (request ");
    s.append(number(id).as_str());
    s.append(")");
    s
}

/// A request is answered by its response, by no request of the client's and
/// by no response to another.
pub proof fn law_answers_are_told_apart(id: u64, other: u64, result: JsonView, request: JsonView)
    ensures
        answers(response_json(unsigned_json(id), result), other) <==> id == other,
        has_field(request, "method"@) ==> !answers(request, id),
{
    let fields = put(rpc(), "id"@, unsigned_json(id));
    reveal_strlit("jsonrpc");
    reveal_strlit("id");
    reveal_strlit("result");
    reveal_strlit("method");
    assert("jsonrpc"@.len() == 7 && "id"@.len() == 2 && "result"@.len() == 6 && "method"@.len()
        == 6);
    assert("result"@[0] == 'r' && "method"@[0] == 'm');
    crate::json::law_put_then_get(rpc(), "id"@, unsigned_json(id), "id"@);
    crate::json::law_put_then_get(fields, "result"@, result, "id"@);
    let all = put(fields, "result"@, result);
    reveal_with_fuel(crate::json::field_at, 5);
    assert(rpc() =~= seq![("jsonrpc"@, JsonView::Str("2.0"@))]);
    assert(rpc().skip(1) =~= Seq::empty());
    assert(fields =~= rpc().push(("id"@, unsigned_json(id))));
    assert(fields.skip(1) =~= seq![("id"@, unsigned_json(id))]);
    assert(fields.skip(1).skip(1) =~= Seq::empty());
    assert(all =~= fields.push(("result"@, result)));
    assert(all.skip(1).skip(1).skip(1) =~= Seq::empty());
    assert(crate::json::field_at(all, "method"@) == 3);
}

// ---- Serving -----------------------------------------------------------

/// The model option, set to CURRENT.
pub open spec fn model_options_json(current: Seq<char>) -> JsonView {
    let choice = put(
        field("value"@, JsonView::Str(current)),
        "name"@,
        JsonView::Str(current),
    );
    let f = field("id"@, JsonView::Str(MODEL_OPTION@));
    let f = put(f, "name"@, JsonView::Str("Model"@));
    let f = put(f, "category"@, JsonView::Str("model"@));
    let f = put(f, "type"@, JsonView::Str("select"@));
    let f = put(f, "currentValue"@, JsonView::Str(current));
    let f = put(f, "options"@, JsonView::Array(seq![JsonView::Object(choice)]));
    JsonView::Array(seq![JsonView::Object(f)])
}

fn one(v: Json) -> (r: Json)
    ensures
        r@ == JsonView::Array(seq![v@]),
{
    let mut list: Vec<Json> = Vec::new();
    list.push(v);
    assert(json_views(list@) =~= seq![v@]);
    Json::Array(list)
}

pub fn model_options(current: &str) -> (r: Json)
    ensures
        r@ == model_options_json(current@),
{
    let choice = Fields::new().with("value", Json::text(current)).with("name", Json::text(current));
    let f = Fields::new().with("id", Json::text(MODEL_OPTION));
    let f = f.with("name", Json::text("Model"));
    let f = f.with("category", Json::text("model"));
    let f = f.with("type", Json::text("select"));
    let f = f.with("currentValue", Json::text(current));
    let f = f.with("options", one(Json::Object(choice)));
    one(Json::Object(f))
}

/// What the agent does with a message of the client's.
#[derive(Debug)]
pub enum Served {
    Nothing,
    /// Send this.
    Send(Json),
    /// Run a prompt turn, and answer the request with this id.
    Prompt(Json),
}

/// What the agent does with a message of the client's.
pub enum ServedView {
    Nothing,
    Send(JsonView),
    Prompt(JsonView),
}

impl View for Served {
    type V = ServedView;

    open spec fn view(&self) -> ServedView {
        match self {
            Served::Nothing => ServedView::Nothing,
            Served::Send(m) => ServedView::Send(m@),
            Served::Prompt(id) => ServedView::Prompt(id@),
        }
    }
}

/// The response to `initialize`.
pub open spec fn initialized_json(version: Seq<char>) -> JsonView {
    JsonView::Object(
        put(
            field("protocolVersion"@, unsigned_json(1)),
            "agentInfo"@,
            JsonView::Object(
                put(field("name"@, JsonView::Str(NAME@)), "version"@, JsonView::Str(version)),
            ),
        ),
    )
}

/// The response to `session/new`.
pub open spec fn session_json() -> JsonView {
    JsonView::Object(
        put(
            field("sessionId"@, JsonView::Str(SESSION@)),
            "configOptions"@,
            model_options_json(DEFAULT_MODEL@),
        ),
    )
}

/// The answer to a request that the agent doesn't handle.
pub open spec fn unhandled_json(id: JsonView, method: Seq<char>) -> JsonView {
    JsonView::Object(
        put(
            put(rpc(), "id"@, id),
            "error"@,
            JsonView::Object(
                put(
                    field("code"@, signed_json(-32601i64)),
                    "message"@,
                    JsonView::Str("fake-acp-agent doesn't handle "@ + method),
                ),
            ),
        ),
    )
}

/// What the agent does with MSG. SLOW_INIT: it never answers `initialize`.
pub open spec fn served(msg: JsonView, slow_init: bool, version: Seq<char>) -> ServedView {
    let id = at(msg, "id"@);
    match str_of(at(msg, "method"@)) {
        Some(m) => if m == "initialize"@ {
            if slow_init {
                ServedView::Nothing
            } else {
                ServedView::Send(response_json(id, initialized_json(version)))
            }
        } else if m == "session/new"@ {
            ServedView::Send(response_json(id, session_json()))
        } else if m == "session/set_config_option"@ {
            ServedView::Send(
                response_json(
                    id,
                    JsonView::Object(
                        field(
                            "configOptions"@,
                            model_options_json(
                                str_or(at(at(msg, "params"@), "value"@), DEFAULT_MODEL@),
                            ),
                        ),
                    ),
                ),
            )
        } else if m == "session/prompt"@ {
            ServedView::Prompt(id)
        } else if id is Null {
            ServedView::Nothing
        } else {
            ServedView::Send(unhandled_json(id, m))
        },
        None => ServedView::Nothing,
    }
}

/// The working directory after MSG: `session/new` sets it.
pub open spec fn cwd_after(cwd: Seq<char>, msg: JsonView) -> Seq<char> {
    if str_of(at(msg, "method"@)) == Some("session/new"@) {
        str_or(at(at(msg, "params"@), "cwd"@), cwd)
    } else {
        cwd
    }
}

fn unhandled(id: &Json, method: &str) -> (r: Json)
    ensures
        r@ == unhandled_json(id@, method@),
{
    let mut s = "fake-acp-agent doesn't handle ".to_owned();
    s.append(method);
    let error = Fields::new().with("code", Json::signed(-32601)).with(
        "message",
        Json::text(s.as_str()),
    );
    Json::Object(rpc_fields().with("id", id.copy()).with("error", Json::Object(error)))
}

/// Serves one message of the client's.
pub fn serve(
    conn: &mut Conn,
    cwd: &mut String,
    msg: &Json,
    slow_init: bool,
    version: &str,
) -> (r: Served)
    ensures
        r@ == served(msg@, slow_init, version@),
        final(cwd)@ == cwd_after(old(cwd)@, msg@),
        final(conn).next_id == old(conn).next_id,
        final(conn).cancelled == (old(conn).cancelled && !(r@ is Prompt)),
{
    let id = msg.at("id");
    let m = match msg.at("method").as_str() {
        Some(m) => m,
        None => {
            return Served::Nothing;
        },
    };
    proof {
        reveal_strlit("initialize");
        reveal_strlit("session/new");
        assert("initialize"@.len() == 10 && "session/new"@.len() == 11);
    }
    if same(m, "initialize") {
        if slow_init {
            return Served::Nothing;
        }
        let info = Fields::new().with("name", Json::text(NAME)).with("version", Json::text(version));
        let result = Fields::new().with("protocolVersion", Json::unsigned(1)).with(
            "agentInfo",
            Json::Object(info),
        );
        Served::Send(response(id, Json::Object(result)))
    } else if same(m, "session/new") {
        if let Some(c) = msg.at("params").at("cwd").as_str() {
            *cwd = c.to_owned();
        }
        let result = Fields::new().with("sessionId", Json::text(SESSION)).with(
            "configOptions",
            model_options(DEFAULT_MODEL),
        );
        Served::Send(response(id, Json::Object(result)))
    } else if same(m, "session/set_config_option") {
        let value = msg.at("params").at("value").str_or(DEFAULT_MODEL);
        let result = Fields::new().with("configOptions", model_options(value));
        Served::Send(response(id, Json::Object(result)))
    } else if same(m, "session/prompt") {
        conn.cancelled = false;
        Served::Prompt(id.copy())
    } else if id.is_null() {
        // Notifications (a cancel before the prompt) need no answer.
        Served::Nothing
    } else {
        Served::Send(unhandled(id, m))
    }
}

/// The response that ends a prompt turn.
pub open spec fn stopped_json(id: JsonView, reason: Seq<char>) -> JsonView {
    response_json(id, JsonView::Object(field("stopReason"@, JsonView::Str(reason))))
}

/// The response that ends the prompt turn ID.
pub fn turn_over(id: &Json, reason: &str) -> (r: Json)
    ensures
        r@ == stopped_json(id@, reason@),
{
    response(id, Json::Object(Fields::new().with("stopReason", Json::text(reason))))
}

/// Every request is answered, but for `initialize` where the agent is slow
/// to start, and the prompt, which is answered at the end of its turn.
pub proof fn law_requests_are_served(msg: JsonView, slow_init: bool, version: Seq<char>)
    requires
        str_of(at(msg, "method"@)) is Some,
        !(at(msg, "id"@) is Null),
        !(slow_init && str_of(at(msg, "method"@)) == Some("initialize"@)),
    ensures
        !(served(msg, slow_init, version) is Nothing),
        served(msg, slow_init, version) is Prompt <==> str_of(at(msg, "method"@)) == Some(
            "session/prompt"@,
        ),
{
    reveal_strlit("initialize");
    reveal_strlit("session/new");
    reveal_strlit("session/set_config_option");
    reveal_strlit("session/prompt");
    assert("initialize"@.len() == 10 && "session/new"@.len() == 11
        && "session/set_config_option"@.len() == 25 && "session/prompt"@.len() == 14);
}

// ---- Prompt turns ------------------------------------------------------

/// Why a prompt turn stops at its end.
pub open spec fn reason_text(cancelled: bool) -> Seq<char> {
    if cancelled {
        "cancelled"@
    } else {
        "end_turn"@
    }
}

/// Why a prompt turn stops at its end.
pub fn stop_reason(cancelled: bool) -> (r: &'static str)
    ensures
        r@ == reason_text(cancelled),
{
    if cancelled {
        "cancelled"
    } else {
        "end_turn"
    }
}

/// What comes next in a scripted prompt turn.
#[derive(Debug, Clone, Copy, PartialEq, Eq, Structural)]
pub enum TurnStep {
    /// Play the step with this number.
    Play(usize),
    /// End the turn: cancelled, or at its end.
    Stop(bool),
}

/// What comes after I of N steps: a cancel ends the turn before the next.
pub fn turn_step(cancelled: bool, i: usize, n: usize) -> (r: TurnStep)
    ensures
        r == if i < n && !cancelled {
            TurnStep::Play(i)
        } else {
            TurnStep::Stop(cancelled)
        },
{
    if i < n && !cancelled {
        TurnStep::Play(i)
    } else {
        TurnStep::Stop(cancelled)
    }
}

/// TEXT with TO for every FROM, from the left.
pub open spec fn replaced(text: Seq<char>, from: Seq<char>, to: Seq<char>) -> Seq<char>
    decreases text.len(),
{
    if text.len() == 0 || from.len() == 0 {
        text
    } else if has_prefix(text, from) {
        to + replaced(text.skip(from.len() as int), from, to)
    } else {
        seq![text[0]] + replaced(text.skip(1), from, to)
    }
}

fn replace(text: &str, from: &str, to: &str) -> (r: String)
    requires
        from@.len() > 0,
    ensures
        r@ == replaced(text@, from@, to@),
{
    let v = chars_of(text);
    let f = chars_of(from);
    let mut r = String::new();
    let mut i: usize = 0;
    assert(v@.skip(0) =~= v@);
    assert(Seq::<char>::empty() + replaced(v@, from@, to@) =~= replaced(v@, from@, to@));
    while i < v.len()
        invariant
            f@ == from@,
            f@.len() > 0,
            i <= v@.len(),
            r@ + replaced(v@.skip(i as int), from@, to@) == replaced(v@, from@, to@),
        decreases v@.len() - i,
    {
        let ghost rest = v@.skip(i as int);
        let mut k: usize = 0;
        while k < f.len() && k < v.len() - i && v[i + k] == f[k]
            invariant
                i <= v@.len(),
                rest == v@.skip(i as int),
                k <= f@.len(),
                k <= v@.len() - i,
                forall|j: int| 0 <= j < k ==> rest[j] == #[trigger] f@[j],
            decreases f@.len() - k,
        {
            assert(rest[k as int] == v@[i + k]);
            k += 1;
        }
        if k == f.len() {
            assert(rest.take(f@.len() as int) =~= f@);
            assert(has_prefix(rest, f@));
            assert(rest.skip(f@.len() as int) =~= v@.skip(i + k));
            let ghost before = r@;
            r.append(to);
            assert(before + (to@ + replaced(v@.skip(i + k), from@, to@)) =~= r@ + replaced(
                v@.skip(i + k),
                from@,
                to@,
            ));
            i = i + k;
        } else {
            assert(!has_prefix(rest, f@)) by {
                if has_prefix(rest, f@) {
                    assert(rest.take(f@.len() as int)[k as int] == f@[k as int]);
                    assert(rest[k as int] == v@[i + k]);
                }
            }
            assert(rest.skip(1) =~= v@.skip(i + 1));
            let ghost before = r@;
            r.push(v[i]);
            assert(before + (seq![rest[0]] + replaced(v@.skip(i + 1), from@, to@)) =~= r@
                + replaced(v@.skip(i + 1), from@, to@));
            i = i + 1;
        }
    }
    assert(v@.skip(i as int) =~= Seq::<char>::empty());
    assert(r@ + Seq::<char>::empty() =~= r@);
    r
}

/// TEXT with the working directory and the home directory filled in.
pub open spec fn filled(text: Seq<char>, cwd: Seq<char>, home: Seq<char>) -> Seq<char> {
    replaced(replaced(text, "{cwd}"@, cwd), "{home}"@, home)
}

/// TEXT with the working directory and the home directory filled in.
pub fn fill(text: &str, cwd: &str, home: &str) -> (r: String)
    ensures
        r@ == filled(text@, cwd@, home@),
{
    proof {
        reveal_strlit("{cwd}");
        reveal_strlit("{home}");
    }
    let t = replace(text, "{cwd}", cwd);
    replace(t.as_str(), "{home}", home)
}

/// A chunk of an agent message.
pub open spec fn chunk_json(text: Seq<char>) -> JsonView {
    JsonView::Object(
        put(
            field("sessionUpdate"@, JsonView::Str("agent_message_chunk"@)),
            "content"@,
            JsonView::Object(
                put(field("type"@, JsonView::Str("text"@)), "text"@, JsonView::Str(text)),
            ),
        ),
    )
}

fn text_block(text: &str) -> (r: Json)
    ensures
        r@ == JsonView::Object(
            put(field("type"@, JsonView::Str("text"@)), "text"@, JsonView::Str(text@)),
        ),
{
    Json::Object(Fields::new().with("type", Json::text("text")).with("text", Json::text(text)))
}

/// A chunk of an agent message.
pub fn message_chunk(text: &str) -> (r: Json)
    ensures
        r@ == chunk_json(text@),
{
    Json::Object(
        Fields::new().with("sessionUpdate", Json::text("agent_message_chunk")).with(
            "content",
            text_block(text),
        ),
    )
}

/// What the session has cost.
pub open spec fn cost_json(usd: JsonView) -> JsonView {
    let cost = put(field("amount"@, usd), "currency"@, JsonView::Str("USD"@));
    let f = field("sessionUpdate"@, JsonView::Str("usage_update"@));
    let f = put(f, "used"@, unsigned_json(0));
    let f = put(f, "size"@, unsigned_json(0));
    JsonView::Object(put(f, "cost"@, JsonView::Object(cost)))
}

fn cost_update(usd: &Json) -> (r: Json)
    ensures
        r@ == cost_json(usd@),
{
    let cost = Fields::new().with("amount", usd.copy()).with("currency", Json::text("USD"));
    let f = Fields::new().with("sessionUpdate", Json::text("usage_update"));
    let f = f.with("used", Json::unsigned(0));
    let f = f.with("size", Json::unsigned(0));
    Json::Object(f.with("cost", Json::Object(cost)))
}

/// A tool call.
pub open spec fn call_fields(
    id: Seq<char>,
    title: Seq<char>,
    kind: Seq<char>,
    input: JsonView,
) -> Seq<(Seq<char>, JsonView)> {
    let f = field("toolCallId"@, JsonView::Str(id));
    let f = put(f, "title"@, JsonView::Str(title));
    let f = put(f, "kind"@, JsonView::Str(kind));
    put(f, "rawInput"@, input)
}

/// The update that announces a tool call.
pub open spec fn announced(call: Seq<(Seq<char>, JsonView)>) -> JsonView {
    JsonView::Object(
        put(
            put(call, "sessionUpdate"@, JsonView::Str("tool_call"@)),
            "status"@,
            JsonView::Str("pending"@),
        ),
    )
}

/// What a tool call does once it is permitted.
#[derive(Debug)]
pub enum Work {
    /// Run a command.
    Execute(String),
    /// Read a file, its first lines where a number of them is given.
    Read(String, Option<u64>),
    /// Write a file: its path and what it holds.
    Write(String, String),
}

/// What a tool call does once it is permitted.
pub enum WorkView {
    Execute(Seq<char>),
    Read(Seq<char>, Option<u64>),
    Write(Seq<char>, Seq<char>),
}

impl View for Work {
    type V = WorkView;

    open spec fn view(&self) -> WorkView {
        match self {
            Work::Execute(command) => WorkView::Execute(command@),
            Work::Read(path, lines) => WorkView::Read(path@, *lines),
            Work::Write(path, content) => WorkView::Write(path@, content@),
        }
    }
}

/// How a step is played.
#[derive(Debug)]
pub enum Play {
    /// Send an update.
    Update(Json),
    /// Send an update, ask permission for the call, and do the work.
    Call(Json, Json, Work),
}

/// How a step is played.
pub enum PlayView {
    Update(JsonView),
    Call(JsonView, JsonView, WorkView),
}

impl View for Play {
    type V = PlayView;

    open spec fn view(&self) -> PlayView {
        match self {
            Play::Update(u) => PlayView::Update(u@),
            Play::Call(u, call, work) => PlayView::Call(u@, call@, work@),
        }
    }
}

/// A tool call step.
pub open spec fn call_play(
    id: Seq<char>,
    title: Seq<char>,
    kind: Seq<char>,
    input: JsonView,
    work: WorkView,
) -> PlayView {
    let call = call_fields(id, title, kind, input);
    PlayView::Call(announced(call), JsonView::Object(call), work)
}

/// How a step is played as the tool call ID.
pub open spec fn play_of(step: Step, id: Seq<char>, cwd: Seq<char>, home: Seq<char>) -> PlayView {
    match step {
        Step::Say(text) => PlayView::Update(chunk_json(text@)),
        Step::Cost { usd } => PlayView::Update(cost_json(usd@)),
        Step::Execute { title, command } => {
            let command = filled(command@, cwd, home);
            call_play(
                id,
                title@,
                "execute"@,
                JsonView::Object(field("command"@, JsonView::Str(command))),
                WorkView::Execute(command),
            )
        },
        Step::Read { title, path, lines } => {
            let path = filled(path@, cwd, home);
            call_play(
                id,
                title@,
                "read"@,
                JsonView::Object(
                    put(field("path"@, JsonView::Str(path)), "lines"@, opt_unsigned_json(lines)),
                ),
                WorkView::Read(path, lines),
            )
        },
        Step::Write { title, path, content } => {
            let path = filled(path@, cwd, home);
            let content = filled(content@, cwd, home);
            call_play(
                id,
                title@,
                "edit"@,
                JsonView::Object(
                    put(
                        field("path"@, JsonView::Str(path)),
                        "content"@,
                        JsonView::Str(content),
                    ),
                ),
                WorkView::Write(path, content),
            )
        },
    }
}

fn call_step(id: &str, title: &str, kind: &str, input: Fields, work: Work) -> (r: Play)
    ensures
        r@ == call_play(id@, title@, kind@, JsonView::Object(input@), work@),
{
    let input = Json::Object(input);
    let announce = Fields::new().with("toolCallId", Json::text(id)).with(
        "title",
        Json::text(title),
    ).with("kind", Json::text(kind)).with("rawInput", input.copy()).with(
        "sessionUpdate",
        Json::text("tool_call"),
    ).with("status", Json::text("pending"));
    let call = Fields::new().with("toolCallId", Json::text(id)).with(
        "title",
        Json::text(title),
    ).with("kind", Json::text(kind)).with("rawInput", input);
    Play::Call(Json::Object(announce), Json::Object(call), work)
}

/// How STEP is played as the tool call ID.
pub fn play(step: &Step, id: &str, cwd: &str, home: &str) -> (r: Play)
    ensures
        r@ == play_of(*step, id@, cwd@, home@),
{
    match step {
        Step::Say(text) => Play::Update(message_chunk(text.as_str())),
        Step::Cost { usd } => Play::Update(cost_update(usd)),
        Step::Execute { title, command } => {
            let command = fill(command.as_str(), cwd, home);
            let input = Fields::new().with("command", Json::text(command.as_str()));
            call_step(id, title.as_str(), "execute", input, Work::Execute(command))
        },
        Step::Read { title, path, lines } => {
            let path = fill(path.as_str(), cwd, home);
            let input = Fields::new().with("path", Json::text(path.as_str())).with(
                "lines",
                Json::opt_unsigned(*lines),
            );
            call_step(id, title.as_str(), "read", input, Work::Read(path, *lines))
        },
        Step::Write { title, path, content } => {
            let path = fill(path.as_str(), cwd, home);
            let content = fill(content.as_str(), cwd, home);
            let input = Fields::new().with("path", Json::text(path.as_str())).with(
                "content",
                Json::text(content.as_str()),
            );
            call_step(id, title.as_str(), "edit", input, Work::Write(path, content))
        },
    }
}

/// The id of the call of step I.
pub fn call_id(i: usize) -> (r: String)
    ensures
        r@ == "call-"@ + decimal(i as nat),
{
    let mut s = "call-".to_owned();
    s.append(number(i as u64).as_str());
    s
}

// ---- Permissions -------------------------------------------------------

/// An option of a permission request.
pub open spec fn option_json(id: Seq<char>, name: Seq<char>, kind: Seq<char>) -> JsonView {
    JsonView::Object(
        put(
            put(field("optionId"@, JsonView::Str(id)), "name"@, JsonView::Str(name)),
            "kind"@,
            JsonView::Str(kind),
        ),
    )
}

/// The params of a permission request for a call.
pub open spec fn permission_json(call: JsonView) -> JsonView {
    JsonView::Object(
        put(
            put(field("sessionId"@, JsonView::Str(SESSION@)), "toolCall"@, call),
            "options"@,
            JsonView::Array(
                seq![
                    option_json(ALLOW@, "Allow"@, "allow_once"@),
                    option_json(REJECT@, "Reject"@, "reject_once"@),
                ],
            ),
        ),
    )
}

fn offer(id: &str, name: &str, kind: &str) -> (r: Json)
    ensures
        r@ == option_json(id@, name@, kind@),
{
    Json::Object(
        Fields::new().with("optionId", Json::text(id)).with("name", Json::text(name)).with(
            "kind",
            Json::text(kind),
        ),
    )
}

/// The params of a permission request for CALL.
pub fn permission_params(call: Json) -> (r: Json)
    ensures
        r@ == permission_json(call@),
{
    let mut options: Vec<Json> = Vec::new();
    options.push(offer(ALLOW, "Allow", "allow_once"));
    options.push(offer(REJECT, "Reject", "reject_once"));
    assert(json_views(options@) =~= seq![
        option_json(ALLOW@, "Allow"@, "allow_once"@),
        option_json(REJECT@, "Reject"@, "reject_once"@),
    ]);
    Json::Object(
        Fields::new().with("sessionId", Json::text(SESSION)).with("toolCall", call).with(
            "options",
            Json::Array(options),
        ),
    )
}

/// The client's ANSWER grants the permission.
pub open spec fn grants(answer: JsonView) -> bool {
    let outcome = at(at(answer, "result"@), "outcome"@);
    str_of(at(outcome, "outcome"@)) == Some("selected"@) && str_of(at(outcome, "optionId"@))
        == Some(ALLOW@)
}

/// Whether the client's ANSWER to a permission request granted it.
pub fn granted(answer: &Json) -> (r: bool)
    ensures
        r == grants(answer@),
{
    let outcome = answer.at("result").at("outcome");
    let selected = match outcome.at("outcome").as_str() {
        Some(s) => same(s, "selected"),
        None => false,
    };
    let allowed = match outcome.at("optionId").as_str() {
        Some(s) => same(s, ALLOW),
        None => false,
    };
    selected && allowed
}

/// The option that the agent offers for a decision.
pub open spec fn offered_for(decision: Decision) -> Seq<char> {
    match decision {
        Decision::Allow => ALLOW@,
        Decision::Deny => REJECT@,
    }
}

/// A policy decides over the agent, whatever call it asks permission for:
/// the agent offers an option for either decision, and does the call's work
/// just where the one for an allow is selected.
pub proof fn law_policies_decide_over_the_agent(
    id: Seq<char>,
    call: JsonView,
    work: WorkView,
    decision: Decision,
    answer: JsonView,
)
    requires
        ({
            let outcome = at(at(answer, "result"@), "outcome"@);
            str_of(at(outcome, "outcome"@)) == Some("selected"@) && str_of(
                at(outcome, "optionId"@),
            ) == Some(offered_for(decision))
        }),
    ensures
        picked(at(permission_json(call), "options"@), decision) == Some(
            (offered_for(decision), decision),
        ),
        grants(answer) <==> decision == Decision::Allow,
        answered(id, answer, work) is Go <==> decision == Decision::Allow,
{
    broadcast use lemma_at_put;

    let allow = option_json(ALLOW@, "Allow"@, "allow_once"@);
    let reject = option_json(REJECT@, "Reject"@, "reject_once"@);
    let options = seq![allow, reject];
    reveal_strlit("optionId");
    reveal_strlit("name");
    reveal_strlit("kind");
    assert("optionId"@.len() == 8 && "name"@[0] == 'n' && "name"@.len() == 4 && "kind"@[0] == 'k'
        && "kind"@.len() == 4);
    reveal_strlit("allow_once");
    reveal_strlit("reject_once");
    assert("allow_once"@.len() == 10 && "reject_once"@.len() == 11);
    assert(items_of(at(permission_json(call), "options"@)) == options);
    reveal_with_fuel(option_of, 3);
    assert(options.skip(1) =~= seq![reject]);
    reveal_strlit("allow");
    reveal_strlit("reject");
    assert(ALLOW@.len() == 5 && REJECT@.len() == 6);
}

// ---- Results -----------------------------------------------------------

/// The content of a tool call: one text.
pub open spec fn content_json(text: Seq<char>) -> JsonView {
    JsonView::Array(
        seq![
            JsonView::Object(
                put(
                    field("type"@, JsonView::Str("content"@)),
                    "content"@,
                    JsonView::Object(
                        put(field("type"@, JsonView::Str("text"@)), "text"@, JsonView::Str(text)),
                    ),
                ),
            ),
        ],
    )
}

pub fn text_content(text: &str) -> (r: Json)
    ensures
        r@ == content_json(text@),
{
    one(
        Json::Object(
            Fields::new().with("type", Json::text("content")).with("content", text_block(text)),
        ),
    )
}

/// An update of the call ID: its status.
pub open spec fn status_fields(id: Seq<char>, status: Seq<char>) -> Seq<(Seq<char>, JsonView)> {
    put(
        put(
            field("sessionUpdate"@, JsonView::Str("tool_call_update"@)),
            "toolCallId"@,
            JsonView::Str(id),
        ),
        "status"@,
        JsonView::Str(status),
    )
}

fn with_status(id: &str, status: &str) -> (r: Fields)
    ensures
        r@ == status_fields(id@, status@),
{
    Fields::new().with("sessionUpdate", Json::text("tool_call_update")).with(
        "toolCallId",
        Json::text(id),
    ).with("status", Json::text(status))
}

/// The call ID goes on.
pub fn in_progress(id: &str) -> (r: Json)
    ensures
        r@ == JsonView::Object(status_fields(id@, "in_progress"@)),
{
    Json::Object(with_status(id, "in_progress"))
}

/// The call ID was refused.
pub open spec fn refused_json(id: Seq<char>) -> JsonView {
    JsonView::Object(
        put(
            status_fields(id, "failed"@),
            "content"@,
            content_json("The client refused permission"@),
        ),
    )
}

/// The call ID was refused.
pub fn refused(id: &str) -> (r: Json)
    ensures
        r@ == refused_json(id@),
{
    Json::Object(
        with_status(id, "failed").with("content", text_content("The client refused permission")),
    )
}

/// What comes of a tool call once the client has answered.
#[derive(Debug)]
pub enum CallStep {
    /// Send an update: the call is over, with nothing done.
    Refuse(Json),
    /// Send an update, do the work, and send what came of it.
    Go(Json, Work),
}

/// What comes of a tool call once the client has answered.
pub enum CallStepView {
    Refuse(JsonView),
    Go(JsonView, WorkView),
}

impl View for CallStep {
    type V = CallStepView;

    open spec fn view(&self) -> CallStepView {
        match self {
            CallStep::Refuse(u) => CallStepView::Refuse(u@),
            CallStep::Go(u, work) => CallStepView::Go(u@, work@),
        }
    }
}

/// What comes of the call ID once the client has answered: its WORK where
/// the ANSWER grants the permission, and a failed call where it doesn't.
pub open spec fn answered(id: Seq<char>, answer: JsonView, work: WorkView) -> CallStepView {
    if grants(answer) {
        CallStepView::Go(JsonView::Object(status_fields(id, "in_progress"@)), work)
    } else {
        CallStepView::Refuse(refused_json(id))
    }
}

/// What comes of the call ID, which is to do WORK, once the client has
/// answered its permission request.
pub fn after_answer(id: &str, answer: &Json, work: Work) -> (r: CallStep)
    ensures
        r@ == answered(id@, answer@, work@),
{
    if granted(answer) {
        CallStep::Go(in_progress(id), work)
    } else {
        CallStep::Refuse(refused(id))
    }
}

/// What the agent sends for a step that is played as the call ID, in order,
/// where it asks permission with the request number REQUEST, the client
/// answers ANSWER, and RESULT comes of the work.
pub open spec fn step_messages(
    play: PlayView,
    id: Seq<char>,
    request: u64,
    answer: JsonView,
    result: WorkResultView,
) -> Seq<JsonView> {
    match play {
        PlayView::Update(u) => seq![update_json(u)],
        PlayView::Call(u, call, work) => {
            let asked = seq![
                update_json(u),
                request_json(request, "session/request_permission"@, permission_json(call)),
            ];
            match answered(id, answer, work) {
                CallStepView::Refuse(f) => asked.push(update_json(f)),
                CallStepView::Go(p, _) => asked.push(update_json(p)).push(
                    update_json(done_json(id, result)),
                ),
            }
        },
    }
}

/// A call that the client refuses does no work, whatever the step: the agent
/// announces it, asks, and reports it failed, and what the work would have
/// come to does not show.
pub proof fn law_refused_calls_do_no_work(
    step: Step,
    id: Seq<char>,
    cwd: Seq<char>,
    home: Seq<char>,
    request: u64,
    answer: JsonView,
    result: WorkResultView,
)
    requires
        !grants(answer),
    ensures
        match play_of(step, id, cwd, home) {
            PlayView::Update(_) => true,
            PlayView::Call(u, call, work) => answered(id, answer, work) is Refuse && step_messages(
                play_of(step, id, cwd, home),
                id,
                request,
                answer,
                result,
            ) == seq![
                update_json(u),
                request_json(request, "session/request_permission"@, permission_json(call)),
                update_json(refused_json(id)),
            ],
        },
{
    if let PlayView::Call(u, call, work) = play_of(step, id, cwd, home) {
        assert(step_messages(play_of(step, id, cwd, home), id, request, answer, result) =~= seq![
            update_json(u),
            request_json(request, "session/request_permission"@, permission_json(call)),
            update_json(refused_json(id)),
        ]);
    }
}

/// What came of a tool call's work.
#[derive(Debug)]
pub struct WorkResult {
    pub ok: bool,
    pub text: String,
    pub raw_output: Json,
}

/// What came of a tool call's work.
#[verifier::ext_equal]
pub struct WorkResultView {
    pub ok: bool,
    pub text: Seq<char>,
    pub raw_output: JsonView,
}

impl View for WorkResult {
    type V = WorkResultView;

    open spec fn view(&self) -> WorkResultView {
        WorkResultView { ok: self.ok, text: self.text@, raw_output: self.raw_output@ }
    }
}

/// A command that exited with CODE. A failure's first line is what the log
/// shows: its error.
pub open spec fn executed_of(code: i32, stdout: Seq<u8>, stderr: Seq<u8>) -> WorkResultView {
    WorkResultView {
        ok: code == 0,
        text: if code == 0 {
            utf8_text(stdout) + utf8_text(stderr)
        } else {
            utf8_text(stderr) + utf8_text(stdout)
        },
        raw_output: JsonView::Object(field("exit_code"@, signed_json(code as i64))),
    }
}

/// The result of a command that exited with CODE; none of a signal, which
/// counts as -1.
pub fn executed(code: Option<i32>, stdout: &Vec<u8>, stderr: &Vec<u8>) -> (r: WorkResult)
    ensures
        r@ == executed_of(
            match code {
                Some(c) => c,
                None => -1i32,
            },
            stdout@,
            stderr@,
        ),
{
    let code: i32 = match code {
        Some(c) => c,
        None => -1,
    };
    let out = decode(stdout);
    let err = decode(stderr);
    let mut text = String::new();
    if code == 0 {
        text.append(out.as_str());
        assert(text@ =~= out@);
        text.append(err.as_str());
    } else {
        text.append(err.as_str());
        assert(text@ =~= err@);
        text.append(out.as_str());
    }
    WorkResult {
        ok: code == 0,
        text,
        raw_output: Json::Object(Fields::new().with("exit_code", Json::signed(code as i64))),
    }
}

/// The first lines of a text, all of them where no number is given.
pub open spec fn first_lines(text: Seq<char>, n: Option<u64>) -> Seq<char> {
    let all = lines_of(text);
    joined(
        if n is Some && n->0 < all.len() {
            all.take(n->0 as int)
        } else {
            all
        },
        "\n"@,
    )
}

/// The result of work that failed: E says why.
pub open spec fn failed_of(what: Seq<char>, e: Seq<char>) -> WorkResultView {
    WorkResultView { ok: false, text: what + ": "@ + e, raw_output: JsonView::Null }
}

fn failed(what: &str, e: &str) -> (r: WorkResult)
    ensures
        r@ == failed_of(what@, e@),
{
    let mut text = what.to_owned();
    text.append(": ");
    text.append(e);
    WorkResult { ok: false, text, raw_output: Json::Null }
}

/// The result of a command that could not be run: E says why.
pub fn not_executed(e: &str) -> (r: WorkResult)
    ensures
        r@ == failed_of("running sh"@, e@),
{
    failed("running sh", e)
}

/// The result of reading the file PATH: what it holds, or why it can't be
/// read.
pub fn read_file(path: &str, n: Option<u64>, file: Result<&str, &str>) -> (r: WorkResult)
    ensures
        r@ == match file {
            Ok(text) => WorkResultView {
                ok: true,
                text: first_lines(text@, n),
                raw_output: JsonView::Null,
            },
            Err(e) => failed_of("reading "@ + path@, e@),
        },
{
    match file {
        Ok(text) => {
            let mut all = lines(text);
            let ghost before = views(all@);
            if let Some(n) = n {
                let len = all.len();
                if n < len as u64 {
                    all.truncate(n as usize);
                    assert(views(all@) =~= before.take(n as int));
                }
            }
            WorkResult { ok: true, text: join(&all, "\n"), raw_output: Json::Null }
        },
        Err(e) => {
            let mut what = "reading ".to_owned();
            what.append(path);
            failed(what.as_str(), e)
        },
    }
}

/// The result of writing the file PATH: E says why it can't be written, if
/// it can't.
pub fn wrote_file(path: &str, e: Option<&str>) -> (r: WorkResult)
    ensures
        r@ == match opt_str(e) {
            None => WorkResultView {
                ok: true,
                text: "wrote "@ + path@,
                raw_output: JsonView::Null,
            },
            Some(e) => failed_of("writing "@ + path@, e),
        },
{
    match e {
        None => {
            let mut text = "wrote ".to_owned();
            text.append(path);
            WorkResult { ok: true, text, raw_output: Json::Null }
        },
        Some(e) => {
            let mut what = "writing ".to_owned();
            what.append(path);
            failed(what.as_str(), e)
        },
    }
}

/// The update that ends the call ID.
pub open spec fn done_json(id: Seq<char>, work: WorkResultView) -> JsonView {
    let f = put(
        status_fields(
            id,
            if work.ok {
                "completed"@
            } else {
                "failed"@
            },
        ),
        "content"@,
        content_json(work.text),
    );
    JsonView::Object(
        if work.raw_output is Null {
            f
        } else {
            put(f, "rawOutput"@, work.raw_output)
        },
    )
}

/// The update that ends the call ID.
pub fn done(id: &str, work: WorkResult) -> (r: Json)
    ensures
        r@ == done_json(id@, work@),
{
    let f = with_status(
        id,
        if work.ok {
            "completed"
        } else {
            "failed"
        },
    ).with("content", text_content(work.text.as_str()));
    if work.raw_output.is_null() {
        Json::Object(f)
    } else {
        Json::Object(f.with("rawOutput", work.raw_output))
    }
}

// ---- Misbehaving -------------------------------------------------------

/// The text of each chunk of `flood` mode.
pub open spec fn flood_text() -> Seq<char> {
    Seq::new(1000, |i: int| 'x')
}

fn flood_chunk() -> (r: String)
    ensures
        r@ == flood_text(),
{
    let mut v: Vec<char> = Vec::new();
    for i in 0..1000usize
        invariant
            v@ =~= Seq::new(i as nat, |i: int| 'x'),
    {
        v.push('x');
    }
    let s = string_of(&v, 0, v.len());
    assert(v@.subrange(0, v@.len() as int) =~= v@);
    s
}

/// The chunk that comes after SENT of the N of `flood` mode, if one does.
pub fn flood_step(sent: usize, n: usize) -> (r: Option<Json>)
    ensures
        r is Some <==> sent < n,
        r matches Some(u) ==> u@ == chunk_json(flood_text()),
{
    if sent < n {
        Some(message_chunk(flood_chunk().as_str()))
    } else {
        None
    }
}

/// The requests of `fs` mode, which the client doesn't serve.
pub open spec fn fs_request_of(i: int) -> (Seq<char>, JsonView) {
    if i == 0 {
        (
            "fs/read_text_file"@,
            JsonView::Object(
                put(
                    field("sessionId"@, JsonView::Str(SESSION@)),
                    "path"@,
                    JsonView::Str("/etc/passwd"@),
                ),
            ),
        )
    } else if i == 1 {
        (
            "terminal/create"@,
            JsonView::Object(
                put(
                    field("sessionId"@, JsonView::Str(SESSION@)),
                    "command"@,
                    JsonView::Str("id"@),
                ),
            ),
        )
    } else {
        (
            "fs/read_text_file"@,
            JsonView::Object(field("path"@, JsonView::Str("/etc/passwd"@))),
        )
    }
}

/// The requests of `fs` mode: methods and params.
pub fn fs_requests() -> (r: Vec<(&'static str, Json)>)
    ensures
        r@.len() == 3,
        forall|i: int| 0 <= i < 3 ==> ((#[trigger] r@[i]).0@, r@[i].1@) == fs_request_of(i),
{
    let mut r: Vec<(&'static str, Json)> = Vec::new();
    let with_session = Fields::new().with("sessionId", Json::text(SESSION)).with(
        "path",
        Json::text("/etc/passwd"),
    );
    let terminal = Fields::new().with("sessionId", Json::text(SESSION)).with(
        "command",
        Json::text("id"),
    );
    let bare = Fields::new().with("path", Json::text("/etc/passwd"));
    r.push(("fs/read_text_file", Json::Object(with_session)));
    r.push(("terminal/create", Json::Object(terminal)));
    r.push(("fs/read_text_file", Json::Object(bare)));
    r
}

/// The input of a call in `grace` mode.
pub open spec fn true_input() -> JsonView {
    JsonView::Object(field("command"@, JsonView::Str("true"@)))
}

/// Call I of `grace` mode.
pub open spec fn grace_call_json(i: nat) -> JsonView {
    let f = field("sessionUpdate"@, JsonView::Str("tool_call"@));
    let f = put(f, "toolCallId"@, JsonView::Str("t"@ + decimal(i)));
    let f = put(f, "title"@, JsonView::Str("Bash"@));
    let f = put(f, "kind"@, JsonView::Str("execute"@));
    let f = put(f, "status"@, JsonView::Str("pending"@));
    JsonView::Object(put(f, "rawInput"@, true_input()))
}

/// Call I of `grace` mode.
fn grace_call(i: u64) -> (r: Json)
    ensures
        r@ == grace_call_json(i as nat),
{
    let mut id = "t".to_owned();
    id.append(number(i).as_str());
    let f = Fields::new().with("sessionUpdate", Json::text("tool_call"));
    let f = f.with("toolCallId", Json::text(id.as_str()));
    let f = f.with("title", Json::text("Bash"));
    let f = f.with("kind", Json::text("execute"));
    let f = f.with("status", Json::text("pending"));
    let input = Fields::new().with("command", Json::text("true"));
    Json::Object(f.with("rawInput", Json::Object(input)))
}

/// The calls of `grace` mode: three.
pub fn grace_calls() -> (r: Vec<Json>)
    ensures
        json_views(r@) == seq![grace_call_json(0), grace_call_json(1), grace_call_json(2)],
{
    let mut r: Vec<Json> = Vec::new();
    r.push(grace_call(0));
    r.push(grace_call(1));
    r.push(grace_call(2));
    assert(json_views(r@) =~= seq![grace_call_json(0), grace_call_json(1), grace_call_json(2)]);
    r
}

/// The call that `grace` mode asks permission for too late.
pub fn late_call() -> (r: Json)
    ensures
        r@ == JsonView::Object(
            put(
                put(
                    field("toolCallId"@, JsonView::Str("t2"@)),
                    "kind"@,
                    JsonView::Str("execute"@),
                ),
                "rawInput"@,
                true_input(),
            ),
        ),
{
    let input = Fields::new().with("command", Json::text("true"));
    Json::Object(
        Fields::new().with("toolCallId", Json::text("t2")).with("kind", Json::text("execute")).with(
            "rawInput",
            Json::Object(input),
        ),
    )
}

// ---- What the agent says and does --------------------------------------

/// The agent plays what its arguments ask for; anything else is answered
/// with how to start it.
pub proof fn law_modes_are_asked_for(args: Seq<Seq<char>>, file: Seq<char>, n: nat)
    ensures
        mode_of(seq!["demo"@]) == Ok::<ModeView, Seq<char>>(ModeView::Demo),
        mode_of(seq!["script"@, file]) == Ok::<ModeView, Seq<char>>(ModeView::Script(file)),
        mode_of(seq!["fs"@]) == Ok::<ModeView, Seq<char>>(ModeView::Fs),
        n <= usize::MAX ==> mode_of(seq!["flood"@, decimal(n)]) == Ok::<ModeView, Seq<char>>(
            ModeView::Flood(n),
        ),
        mode_of(seq!["grace"@]) == Ok::<ModeView, Seq<char>>(ModeView::Grace),
        mode_of(seq!["slow-init"@]) == Ok::<ModeView, Seq<char>>(ModeView::SlowInit),
        args.len() == 0 || args.len() > 2 ==> mode_of(args) == Err::<ModeView, Seq<char>>(
            "usage: fake-acp-agent demo | script FILE | fs | flood N | grace | slow-init"@,
        ),
        args.len() == 2 && args[0] != "script"@ && args[0] != "flood"@ ==> mode_of(args) == Err::<
            ModeView,
            Seq<char>,
        >("usage: fake-acp-agent demo | script FILE | fs | flood N | grace | slow-init"@),
        args.len() == 1 && args[0] != "demo"@ && args[0] != "fs"@ && args[0] != "grace"@ && args[0]
            != "slow-init"@ ==> mode_of(args) == Err::<ModeView, Seq<char>>(
            "usage: fake-acp-agent demo | script FILE | fs | flood N | grace | slow-init"@,
        ),
{
    reveal_strlit("demo");
    reveal_strlit("script");
    reveal_strlit("fs");
    reveal_strlit("flood");
    reveal_strlit("grace");
    reveal_strlit("slow-init");
    assert("demo"@.len() == 4 && "script"@.len() == 6 && "fs"@.len() == 2 && "slow-init"@.len()
        == 9);
    assert("flood"@.len() == 5 && "flood"@[0] == 'f' && "grace"@.len() == 5 && "grace"@[0] == 'g');
    law_numbers_read_back(n, usize::MAX as nat);
}

/// The names of the fields of the messages, told apart by their lengths and
/// their first two letters.
proof fn lemma_message_fields()
    ensures
        "sessionUpdate"@.len() == 13 && "sessionUpdate"@[0] == 's' && "sessionUpdate"@[1] == 'e',
        "toolCallId"@.len() == 10 && "toolCallId"@[0] == 't' && "toolCallId"@[1] == 'o',
        "status"@.len() == 6 && "status"@[0] == 's' && "status"@[1] == 't',
        "content"@.len() == 7 && "content"@[0] == 'c' && "content"@[1] == 'o',
        "title"@.len() == 5 && "title"@[0] == 't' && "title"@[1] == 'i',
        "kind"@.len() == 4 && "kind"@[0] == 'k' && "kind"@[1] == 'i',
        "rawInput"@.len() == 8 && "rawInput"@[0] == 'r' && "rawInput"@[1] == 'a',
        "jsonrpc"@.len() == 7 && "jsonrpc"@[0] == 'j' && "jsonrpc"@[1] == 's',
        "id"@.len() == 2 && "id"@[0] == 'i' && "id"@[1] == 'd',
        "method"@.len() == 6 && "method"@[0] == 'm' && "method"@[1] == 'e',
        "params"@.len() == 6 && "params"@[0] == 'p' && "params"@[1] == 'a',
        "result"@.len() == 6 && "result"@[0] == 'r' && "result"@[1] == 'e',
        "error"@.len() == 5 && "error"@[0] == 'e' && "error"@[1] == 'r',
        "sessionId"@.len() == 9 && "sessionId"@[0] == 's' && "sessionId"@[1] == 'e',
        "update"@.len() == 6 && "update"@[0] == 'u' && "update"@[1] == 'p',
        "toolCall"@.len() == 8 && "toolCall"@[0] == 't' && "toolCall"@[1] == 'o',
        "options"@.len() == 7 && "options"@[0] == 'o' && "options"@[1] == 'p',
        "rawOutput"@.len() == 9 && "rawOutput"@[0] == 'r' && "rawOutput"@[1] == 'a',
        "type"@.len() == 4 && "type"@[0] == 't' && "type"@[1] == 'y',
        "text"@.len() == 4 && "text"@[0] == 't' && "text"@[1] == 'e',
        "command"@.len() == 7 && "command"@[0] == 'c' && "command"@[1] == 'o',
        "path"@.len() == 4 && "path"@[0] == 'p' && "path"@[1] == 'a',
        "lines"@.len() == 5 && "lines"@[0] == 'l' && "lines"@[1] == 'i',
        "protocolVersion"@.len() == 15 && "protocolVersion"@[0] == 'p' && "protocolVersion"@[1] == 'r',
        "agentInfo"@.len() == 9 && "agentInfo"@[0] == 'a' && "agentInfo"@[1] == 'g',
        "name"@.len() == 4 && "name"@[0] == 'n' && "name"@[1] == 'a',
        "version"@.len() == 7 && "version"@[0] == 'v' && "version"@[1] == 'e',
        "configOptions"@.len() == 13 && "configOptions"@[0] == 'c' && "configOptions"@[1] == 'o',
        "category"@.len() == 8 && "category"@[0] == 'c' && "category"@[1] == 'a',
        "currentValue"@.len() == 12 && "currentValue"@[0] == 'c' && "currentValue"@[1] == 'u',
        "value"@.len() == 5 && "value"@[0] == 'v' && "value"@[1] == 'a',
        "code"@.len() == 4 && "code"@[0] == 'c' && "code"@[1] == 'o',
        "message"@.len() == 7 && "message"@[0] == 'm' && "message"@[1] == 'e',
        "stopReason"@.len() == 10 && "stopReason"@[0] == 's' && "stopReason"@[1] == 't',
        "exit_code"@.len() == 9 && "exit_code"@[0] == 'e' && "exit_code"@[1] == 'x',
        "optionId"@.len() == 8 && "optionId"@[0] == 'o' && "optionId"@[1] == 'p',
        "usd"@.len() == 3 && "usd"@[0] == 'u' && "usd"@[1] == 's',
        "amount"@.len() == 6 && "amount"@[0] == 'a' && "amount"@[1] == 'm',
        "currency"@.len() == 8 && "currency"@[0] == 'c' && "currency"@[1] == 'u',
        "used"@.len() == 4 && "used"@[0] == 'u' && "used"@[1] == 's',
        "size"@.len() == 4 && "size"@[0] == 's' && "size"@[1] == 'i',
        "cost"@.len() == 4 && "cost"@[0] == 'c' && "cost"@[1] == 'o',
{
    reveal_strlit("sessionUpdate");
    reveal_strlit("toolCallId");
    reveal_strlit("status");
    reveal_strlit("content");
    reveal_strlit("title");
    reveal_strlit("kind");
    reveal_strlit("rawInput");
    reveal_strlit("jsonrpc");
    reveal_strlit("id");
    reveal_strlit("method");
    reveal_strlit("params");
    reveal_strlit("result");
    reveal_strlit("error");
    reveal_strlit("sessionId");
    reveal_strlit("update");
    reveal_strlit("toolCall");
    reveal_strlit("options");
    reveal_strlit("rawOutput");
    reveal_strlit("type");
    reveal_strlit("text");
    reveal_strlit("command");
    reveal_strlit("path");
    reveal_strlit("lines");
    reveal_strlit("protocolVersion");
    reveal_strlit("agentInfo");
    reveal_strlit("name");
    reveal_strlit("version");
    reveal_strlit("configOptions");
    reveal_strlit("category");
    reveal_strlit("currentValue");
    reveal_strlit("value");
    reveal_strlit("code");
    reveal_strlit("message");
    reveal_strlit("stopReason");
    reveal_strlit("exit_code");
    reveal_strlit("optionId");
    reveal_strlit("usd");
    reveal_strlit("amount");
    reveal_strlit("currency");
    reveal_strlit("used");
    reveal_strlit("size");
    reveal_strlit("cost");
}

/// Every message is JSON-RPC 2.0: a response has the id of its request and
/// the result, a request its id, method and params, and an update is a
/// `session/update` notification of the agent's session.
pub proof fn law_messages_are_json_rpc(
    id: JsonView,
    result: JsonView,
    number: u64,
    method: Seq<char>,
    params: JsonView,
    update: JsonView,
)
    ensures
        ({
            let r = response_json(id, result);
            let q = request_json(number, method, params);
            let u = update_json(update);
            let v = JsonView::Str("2.0"@);
            &&& at(r, "jsonrpc"@) == v && at(q, "jsonrpc"@) == v && at(u, "jsonrpc"@) == v
            &&& at(r, "id"@) == id && at(r, "result"@) == result && at(r, "method"@) is Null
            &&& u64_of(at(q, "id"@)) == Some(number)
            &&& at(q, "method"@) == JsonView::Str(method) && at(q, "params"@) == params
            &&& at(u, "id"@) is Null && at(u, "method"@) == JsonView::Str("session/update"@)
            &&& at(at(u, "params"@), "sessionId"@) == JsonView::Str("fake-session"@)
            &&& at(at(u, "params"@), "update"@) == update
        }),
{
    broadcast use lemma_at_put;

    lemma_message_fields();
    lemma_no_fields("id"@);
    lemma_no_fields("method"@);
}

proof fn lemma_no_fields(key: Seq<char>)
    ensures
        at(JsonView::Object(Seq::empty()), key) is Null,
{
    crate::json::law_fields_are_found(Seq::empty(), key, 0, JsonView::Null);
}

/// The agent introduces itself, names its session, and offers its model as a
/// config option with the value that it was set to; a request that it does
/// not handle is answered with the error "method not found".
pub proof fn law_requests_get_their_answers(
    msg: JsonView,
    version: Seq<char>,
    method: Seq<char>,
)
    requires
        str_of(at(msg, "method"@)) == Some(method),
    ensures
        ({
            let reply = served(msg, false, version);
            let answer = reply->Send_0;
            let result = at(answer, "result"@);
            let option = items_of(at(result, "configOptions"@))[0];
            let value = str_of(at(at(msg, "params"@), "value"@));
            &&& method == "initialize"@ ==> {
                &&& reply is Send && at(answer, "id"@) == at(msg, "id"@)
                &&& u64_of(at(result, "protocolVersion"@)) == Some(1u64)
                &&& at(at(result, "agentInfo"@), "name"@) == JsonView::Str("fake-acp-agent"@)
                &&& at(at(result, "agentInfo"@), "version"@) == JsonView::Str(version)
                &&& served(msg, true, version) is Nothing
            }
            &&& method == "session/new"@ ==> {
                &&& reply is Send && at(answer, "id"@) == at(msg, "id"@)
                &&& at(result, "sessionId"@) == JsonView::Str("fake-session"@)
                &&& items_of(at(result, "configOptions"@)).len() == 1
                &&& at(option, "category"@) == JsonView::Str("model"@)
                &&& at(option, "currentValue"@) == JsonView::Str("fake"@)
            }
            &&& method == "session/set_config_option"@ ==> {
                &&& reply is Send && at(answer, "id"@) == at(msg, "id"@)
                &&& items_of(at(result, "configOptions"@)).len() == 1
                &&& at(option, "id"@) == JsonView::Str("model"@)
                &&& at(option, "category"@) == JsonView::Str("model"@)
                &&& value is Some ==> at(option, "currentValue"@) == JsonView::Str(value->0)
                &&& value is None ==> at(option, "currentValue"@) == JsonView::Str("fake"@)
            }
            &&& method == "session/prompt"@ ==> reply == ServedView::Prompt(at(msg, "id"@))
            &&& method != "initialize"@ && method != "session/new"@ && method
                != "session/set_config_option"@ && method != "session/prompt"@ ==> {
                &&& at(msg, "id"@) is Null ==> reply is Nothing
                &&& !(at(msg, "id"@) is Null) ==> {
                    &&& reply is Send && at(answer, "id"@) == at(msg, "id"@)
                    &&& i64_of(at(at(answer, "error"@), "code"@)) == Some(-32601i64)
                    &&& at(at(answer, "error"@), "message"@) == JsonView::Str(
                        "fake-acp-agent doesn't handle "@ + method,
                    )
                }
            }
        }),
{
    lemma_method_lengths();
    if method == "initialize"@ {
        lemma_initialized(at(msg, "id"@), version);
    } else if method == "session/new"@ {
        lemma_session(at(msg, "id"@));
    } else if method == "session/set_config_option"@ {
        lemma_options_set(
            at(msg, "id"@),
            str_or(at(at(msg, "params"@), "value"@), DEFAULT_MODEL@),
        );
    } else {
        lemma_unhandled(at(msg, "id"@), method);
    }
}

proof fn lemma_method_lengths()
    ensures
        "initialize"@.len() == 10 && "session/new"@.len() == 11,
        "session/set_config_option"@.len() == 25 && "session/prompt"@.len() == 14,
{
    reveal_strlit("initialize");
    reveal_strlit("session/new");
    reveal_strlit("session/set_config_option");
    reveal_strlit("session/prompt");
}

proof fn lemma_initialized(id: JsonView, version: Seq<char>)
    ensures
        ({
            let answer = response_json(id, initialized_json(version));
            let result = at(answer, "result"@);
            &&& at(answer, "id"@) == id
            &&& u64_of(at(result, "protocolVersion"@)) == Some(1u64)
            &&& at(at(result, "agentInfo"@), "name"@) == JsonView::Str("fake-acp-agent"@)
            &&& at(at(result, "agentInfo"@), "version"@) == JsonView::Str(version)
        }),
{
    broadcast use lemma_at_put;

    lemma_message_fields();
}

proof fn lemma_model_options(current: Seq<char>)
    ensures
        ({
            let list = items_of(model_options_json(current));
            &&& list.len() == 1
            &&& at(list[0], "id"@) == JsonView::Str("model"@)
            &&& at(list[0], "category"@) == JsonView::Str("model"@)
            &&& at(list[0], "currentValue"@) == JsonView::Str(current)
        }),
{
    broadcast use lemma_at_put;

    lemma_message_fields();
}

proof fn lemma_session(id: JsonView)
    ensures
        ({
            let answer = response_json(id, session_json());
            let result = at(answer, "result"@);
            let list = items_of(at(result, "configOptions"@));
            &&& at(answer, "id"@) == id
            &&& at(result, "sessionId"@) == JsonView::Str("fake-session"@)
            &&& list.len() == 1
            &&& at(list[0], "category"@) == JsonView::Str("model"@)
            &&& at(list[0], "currentValue"@) == JsonView::Str("fake"@)
        }),
{
    broadcast use lemma_at_put;

    lemma_message_fields();
    lemma_model_options(DEFAULT_MODEL@);
}

proof fn lemma_options_set(id: JsonView, current: Seq<char>)
    ensures
        ({
            let answer = response_json(
                id,
                JsonView::Object(field("configOptions"@, model_options_json(current))),
            );
            let list = items_of(at(at(answer, "result"@), "configOptions"@));
            &&& at(answer, "id"@) == id
            &&& list.len() == 1
            &&& at(list[0], "id"@) == JsonView::Str("model"@)
            &&& at(list[0], "category"@) == JsonView::Str("model"@)
            &&& at(list[0], "currentValue"@) == JsonView::Str(current)
        }),
{
    broadcast use lemma_at_put;

    lemma_message_fields();
    lemma_model_options(current);
}

proof fn lemma_unhandled(id: JsonView, method: Seq<char>)
    ensures
        ({
            let answer = unhandled_json(id, method);
            &&& at(answer, "id"@) == id
            &&& i64_of(at(at(answer, "error"@), "code"@)) == Some(-32601i64)
            &&& at(at(answer, "error"@), "message"@) == JsonView::Str(
                "fake-acp-agent doesn't handle "@ + method,
            )
        }),
{
    broadcast use lemma_at_put;

    lemma_message_fields();
}

/// The working directory is the one that `session/new` last named.
pub proof fn law_session_new_names_the_cwd(cwd: Seq<char>, msg: JsonView, named: Seq<char>)
    ensures
        str_of(at(msg, "method"@)) == Some("session/new"@) && at(at(msg, "params"@), "cwd"@)
            == JsonView::Str(named) ==> cwd_after(cwd, msg) == named,
        str_of(at(msg, "method"@)) != Some("session/new"@) || !(at(at(msg, "params"@), "cwd"@)
            is Str) ==> cwd_after(cwd, msg) == cwd,
{
}

/// A turn that was cancelled stops as `cancelled`, any other as `end_turn`;
/// the response that ends it says so to the request that began it.
pub proof fn law_turns_say_why_they_stop(id: JsonView, reason: Seq<char>)
    ensures
        reason_text(true) == "cancelled"@,
        reason_text(false) == "end_turn"@,
        at(stopped_json(id, reason), "id"@) == id,
        at(at(stopped_json(id, reason), "result"@), "stopReason"@) == JsonView::Str(reason),
{
    broadcast use lemma_at_put;

    lemma_message_fields();
}

/// Every place that is to be filled in is, from the left; a text without any
/// stays as it is.
pub proof fn law_places_are_filled_in(
    a: Seq<char>,
    from: Seq<char>,
    b: Seq<char>,
    to: Seq<char>,
)
    requires
        from.len() > 0,
    ensures
        (forall|i: int|
            0 <= i < a.len() ==> !(#[trigger] from.is_prefix_of((a + from + b).skip(i))))
            ==> replaced(a + from + b, from, to) == a + to + replaced(b, from, to),
        (forall|i: int| 0 <= i < a.len() ==> !(#[trigger] from.is_prefix_of(a.skip(i))))
            ==> replaced(a, from, to) == a,
    decreases a.len(),
{
    let whole = a + from + b;
    if a.len() == 0 {
        assert(whole =~= from + b);
        assert(whole.take(from.len() as int) =~= from);
        assert(whole.skip(from.len() as int) =~= b);
        assert(a + to + replaced(b, from, to) =~= to + replaced(b, from, to));
    } else {
        let rest = a.skip(1);
        assert(whole.skip(1) =~= rest + from + b);
        law_places_are_filled_in(rest, from, b, to);
        assert(whole.skip(0) =~= whole);
        assert(a.skip(0) =~= a);
        if forall|i: int| 0 <= i < a.len() ==> !(#[trigger] from.is_prefix_of(whole.skip(i))) {
            assert(!from.is_prefix_of(whole.skip(0)));
            if has_prefix(whole, from) {
                assert(whole.subrange(0, from.len() as int) =~= whole.take(from.len() as int));
            }
            assert forall|i: int| 0 <= i < rest.len() implies !(#[trigger] from.is_prefix_of(
                (rest + from + b).skip(i),
            )) by {
                assert((rest + from + b).skip(i) =~= whole.skip(i + 1));
                assert(!from.is_prefix_of(whole.skip(i + 1)));
            }
            assert(replaced(whole, from, to) =~= a + to + replaced(b, from, to));
        }
        if forall|i: int| 0 <= i < a.len() ==> !(#[trigger] from.is_prefix_of(a.skip(i))) {
            assert(!from.is_prefix_of(a.skip(0)));
            if has_prefix(a, from) {
                assert(a.subrange(0, from.len() as int) =~= a.take(from.len() as int));
            }
            assert forall|i: int| 0 <= i < rest.len() implies !(#[trigger] from.is_prefix_of(
                rest.skip(i),
            )) by {
                assert(rest.skip(i) =~= a.skip(i + 1));
                assert(!from.is_prefix_of(a.skip(i + 1)));
            }
            assert(replaced(a, from, to) =~= a);
        }
    }
}

/// `{cwd}` and `{home}` stand for the two directories.
pub proof fn law_directories_are_filled_in(cwd: Seq<char>, home: Seq<char>)
    requires
        !(exists|i: int| 0 <= i < cwd.len() && #[trigger] cwd[i] == '{'),
    ensures
        filled("{cwd}"@, cwd, home) == cwd,
        filled("{home}"@, cwd, home) == home,
{
    reveal_strlit("{cwd}");
    reveal_strlit("{home}");
    let none = Seq::<char>::empty();
    law_places_are_filled_in(none, "{cwd}"@, none, cwd);
    assert(none + "{cwd}"@ + none =~= "{cwd}"@);
    assert(none + cwd + none =~= cwd);
    assert forall|i: int| 0 <= i < cwd.len() implies !(#[trigger] "{home}"@.is_prefix_of(
        cwd.skip(i),
    )) by {
        if "{home}"@.is_prefix_of(cwd.skip(i)) {
            assert(cwd.skip(i).subrange(0, 6)[0] == cwd[i]);
            assert("{home}"@[0] == '{');
        }
    }
    law_places_are_filled_in(cwd, "{home}"@, none, home);
    let h = "{home}"@;
    assert forall|i: int| 0 <= i < h.len() implies !(#[trigger] "{cwd}"@.is_prefix_of(
        h.skip(i),
    )) by {
        if "{cwd}"@.is_prefix_of(h.skip(i)) {
            assert(h.skip(i).subrange(0, 5)[0] == h[i]);
            assert(h.skip(i).subrange(0, 5)[1] == h[i + 1]);
            assert("{cwd}"@[0] == '{' && "{cwd}"@[1] == 'c');
            assert(h[0] == '{' && h[1] == 'h' && h[2] == 'o' && h[3] == 'm' && h[4] == 'e' && h[5]
                == '}');
        }
    }
    law_places_are_filled_in(h, "{cwd}"@, none, cwd);
    law_places_are_filled_in(none, h, none, home);
    assert(none + h + none =~= h);
    assert(none + home + none =~= home);
}

/// What the agent says and what it has cost are updates of their kinds.
pub proof fn law_sayings_are_updates(
    step: Step,
    id: Seq<char>,
    cwd: Seq<char>,
    home: Seq<char>,
)
    ensures
        ({
            let play = play_of(step, id, cwd, home);
            let u = play->Update_0;
            &&& step is Say ==> play is Update && at(u, "sessionUpdate"@) == JsonView::Str(
                "agent_message_chunk"@,
            ) && at(at(u, "content"@), "text"@) == JsonView::Str(step->Say_0@)
            &&& step is Cost ==> play is Update && at(u, "sessionUpdate"@) == JsonView::Str(
                "usage_update"@,
            ) && at(at(u, "cost"@), "amount"@) == step->usd@ && at(at(u, "cost"@), "currency"@)
                == JsonView::Str("USD"@)
        }),
{
    broadcast use lemma_at_put;

    lemma_message_fields();
}

/// A tool call is announced as pending, under its id, with the title, the
/// kind and the input of its step; permission is asked for the same call;
/// and its work is what the input says.
#[verifier::rlimit(40)]
pub proof fn law_calls_do_what_they_announce(
    step: Step,
    id: Seq<char>,
    cwd: Seq<char>,
    home: Seq<char>,
)
    requires
        !(step is Say) && !(step is Cost),
    ensures
        ({
            let play = play_of(step, id, cwd, home);
            let (u, call, work) = (play->Call_0, play->Call_1, play->Call_2);
            let input = at(call, "rawInput"@);
            &&& play is Call
            &&& at(u, "sessionUpdate"@) == JsonView::Str("tool_call"@)
            &&& at(u, "status"@) == JsonView::Str("pending"@)
            &&& at(u, "toolCallId"@) == JsonView::Str(id) && at(call, "toolCallId"@)
                == JsonView::Str(id)
            &&& at(u, "title"@) == at(call, "title"@) && at(u, "kind"@) == at(call, "kind"@)
            &&& at(u, "rawInput"@) == input
            &&& step is Execute ==> {
                &&& at(call, "kind"@) == JsonView::Str("execute"@)
                &&& at(call, "title"@) == JsonView::Str(step->Execute_title@)
                &&& work is Execute && work->Execute_0 == filled(step->command@, cwd, home)
                &&& at(input, "command"@) == JsonView::Str(work->Execute_0)
            }
            &&& step is Read ==> {
                &&& at(call, "kind"@) == JsonView::Str("read"@)
                &&& at(call, "title"@) == JsonView::Str(step->Read_title@)
                &&& work is Read && work->Read_0 == filled(step->Read_path@, cwd, home)
                &&& work->Read_1 == step->lines
                &&& at(input, "path"@) == JsonView::Str(work->Read_0)
                &&& step->lines is Some ==> u64_of(at(input, "lines"@)) == step->lines
                &&& step->lines is None ==> at(input, "lines"@) is Null
            }
            &&& step is Write ==> {
                &&& at(call, "kind"@) == JsonView::Str("edit"@)
                &&& at(call, "title"@) == JsonView::Str(step->Write_title@)
                &&& work is Write && work->Write_0 == filled(step->Write_path@, cwd, home)
                &&& work->Write_1 == filled(step->content@, cwd, home)
                &&& at(input, "path"@) == JsonView::Str(work->Write_0)
                &&& at(input, "content"@) == JsonView::Str(work->Write_1)
            }
        }),
{
    broadcast use lemma_at_put;

    lemma_message_fields();
}

/// Permission is granted just where the client selects the option `allow`.
pub proof fn law_only_allow_grants(answer: JsonView)
    ensures
        grants(answer) <==> at(at(at(answer, "result"@), "outcome"@), "outcome"@) == JsonView::Str(
            "selected"@,
        ) && at(at(at(answer, "result"@), "outcome"@), "optionId"@) == JsonView::Str("allow"@),
{
}

/// What comes of a call is told under its id: that it is in progress; that
/// it completed or failed, with what the work came to, as its one text.
#[verifier::rlimit(40)]
pub proof fn law_results_are_told(id: Seq<char>, work: WorkResultView, text: Seq<char>)
    ensures
        ({
            let done = done_json(id, work);
            let going = JsonView::Object(status_fields(id, "in_progress"@));
            let refused = refused_json(id);
            let update = JsonView::Str("tool_call_update"@);
            &&& at(done, "sessionUpdate"@) == update && at(going, "sessionUpdate"@) == update
                && at(refused, "sessionUpdate"@) == update
            &&& at(done, "toolCallId"@) == JsonView::Str(id) && at(going, "toolCallId"@)
                == JsonView::Str(id) && at(refused, "toolCallId"@) == JsonView::Str(id)
            &&& work.ok ==> at(done, "status"@) == JsonView::Str("completed"@)
            &&& !work.ok ==> at(done, "status"@) == JsonView::Str("failed"@)
            &&& at(going, "status"@) == JsonView::Str("in_progress"@)
            &&& at(refused, "status"@) == JsonView::Str("failed"@)
            &&& at(done, "content"@) == content_json(work.text)
            &&& at(refused, "content"@) == content_json("The client refused permission"@)
            &&& at(done, "rawOutput"@) == work.raw_output
            &&& content_text_of(content_json(text)) == text
        }),
{
    broadcast use lemma_at_put;

    lemma_message_fields();
    lemma_no_fields("rawOutput"@);
    lemma_content_is_read(text);
}

proof fn lemma_content_is_read(text: Seq<char>)
    ensures
        content_text_of(content_json(text)) == text,
{
    broadcast use lemma_at_put;

    lemma_message_fields();
    let block = items_of(content_json(text))[0];
    assert(content_json(text) == JsonView::Array(seq![block]));
    assert(str_of(at(at(block, "content"@), "text"@)) == Some(text));
    law_content_is_its_text_blocks(Seq::empty(), Seq::empty(), block, JsonView::Null);
}

/// A command succeeds just where it exits with 0; the output that says what
/// went wrong comes first where it fails, and its exit status is told.
pub proof fn law_commands_tell_their_status(code: i32, stdout: Seq<u8>, stderr: Seq<u8>)
    ensures
        ({
            let work = executed_of(code, stdout, stderr);
            &&& work.ok <==> code == 0
            &&& code == 0 ==> work.text == utf8_text(stdout) + utf8_text(stderr)
            &&& code != 0 ==> work.text == utf8_text(stderr) + utf8_text(stdout)
            &&& i64_of(at(work.raw_output, "exit_code"@)) == Some(code as i64)
        }),
{
    broadcast use lemma_at_put;

}

/// Of a file, as many lines are read as are asked for, from the first, where
/// it has them; without a number, all of them.
pub proof fn law_first_lines_are_read(text: Seq<char>, n: u64)
    ensures
        first_lines(text, None) == joined(lines_of(text), "\n"@),
        n >= lines_of(text).len() ==> first_lines(text, Some(n)) == joined(lines_of(text), "\n"@),
        n < lines_of(text).len() ==> first_lines(text, Some(n)) == joined(
            lines_of(text).subrange(0, n as int),
            "\n"@,
        ),
{
    if n < lines_of(text).len() {
        assert(lines_of(text).subrange(0, n as int) =~= lines_of(text).take(n as int));
    }
}

/// Work that fails says what was tried, and why it failed.
pub proof fn law_failed_work_says_why(what: Seq<char>, e: Seq<char>)
    ensures
        !failed_of(what, e).ok,
        failed_of(what, e).text == what + ": "@ + e,
        failed_of(what, e).raw_output is Null,
{
}

/// A cancel is a message with the method `session/cancel`, and no other.
pub proof fn law_cancels_are_heard(msg: JsonView)
    ensures
        is_cancel(msg) <==> at(msg, "method"@) == JsonView::Str("session/cancel"@),
{
}

/// Permission is asked for the call as it is, in the agent's session, and an
/// allow and a reject are on offer, each for once.
pub proof fn law_permission_is_asked_for_the_call(call: JsonView)
    ensures
        ({
            let params = permission_json(call);
            let options = items_of(at(params, "options"@));
            &&& at(params, "sessionId"@) == JsonView::Str("fake-session"@)
            &&& at(params, "toolCall"@) == call
            &&& options.len() == 2
            &&& at(options[0], "optionId"@) == JsonView::Str("allow"@)
            &&& at(options[0], "kind"@) == JsonView::Str("allow_once"@)
            &&& at(options[1], "optionId"@) == JsonView::Str("reject"@)
            &&& at(options[1], "kind"@) == JsonView::Str("reject_once"@)
        }),
{
    broadcast use lemma_at_put;

    lemma_message_fields();
}

/// A granted call is in progress before its work comes to anything.
pub proof fn law_granted_calls_report_in_order(
    step: Step,
    id: Seq<char>,
    cwd: Seq<char>,
    home: Seq<char>,
    request: u64,
    answer: JsonView,
    result: WorkResultView,
)
    requires
        grants(answer),
        !(step is Say) && !(step is Cost),
    ensures
        ({
            let sent = step_messages(play_of(step, id, cwd, home), id, request, answer, result);
            let update = |i: int| at(at(sent[i], "params"@), "update"@);
            let work = play_of(step, id, cwd, home)->Call_2;
            &&& sent.len() == 4
            &&& at(update(0), "status"@) == JsonView::Str("pending"@)
            &&& at(sent[1], "method"@) == JsonView::Str("session/request_permission"@)
            &&& u64_of(at(sent[1], "id"@)) == Some(request)
            &&& at(update(2), "status"@) == JsonView::Str("in_progress"@)
            &&& result.ok ==> at(update(3), "status"@) == JsonView::Str("completed"@)
            &&& !result.ok ==> at(update(3), "status"@) == JsonView::Str("failed"@)
            &&& answered(id, answer, work) is Go && answered(id, answer, work)->Go_1 == work
        }),
{
    let play = play_of(step, id, cwd, home);
    let nothing = JsonView::Null;
    law_calls_do_what_they_announce(step, id, cwd, home);
    law_results_are_told(id, result, Seq::empty());
    law_messages_are_json_rpc(nothing, nothing, request, Seq::empty(), nothing, play->Call_0);
    law_messages_are_json_rpc(
        nothing,
        nothing,
        request,
        "session/request_permission"@,
        permission_json(play->Call_1),
        JsonView::Object(status_fields(id, "in_progress"@)),
    );
    law_messages_are_json_rpc(
        nothing,
        nothing,
        request,
        Seq::empty(),
        nothing,
        done_json(id, result),
    );
}

/// A chunk of a flood is a thousand times the same letter.
pub proof fn law_floods_are_of_one_letter(i: int)
    ensures
        flood_text().len() == 1000,
        0 <= i < 1000 ==> flood_text()[i] == 'x',
{
}

/// The calls of `grace` mode are announced as pending, each under a number
/// of its own, and run `true`.
pub proof fn law_grace_calls_are_announced(i: nat)
    ensures
        ({
            let call = grace_call_json(i);
            &&& at(call, "sessionUpdate"@) == JsonView::Str("tool_call"@)
            &&& at(call, "toolCallId"@) == JsonView::Str("t"@ + decimal(i))
            &&& at(call, "kind"@) == JsonView::Str("execute"@)
            &&& at(call, "status"@) == JsonView::Str("pending"@)
            &&& at(at(call, "rawInput"@), "command"@) == JsonView::Str("true"@)
        }),
{
    broadcast use lemma_at_put;

    lemma_message_fields();
}

/// The requests of `fs` mode are for a file, for a terminal, and for a file
/// without a session.
pub proof fn law_fs_requests_ask_for_what_is_not_served()
    ensures
        ({
            let (file, terminal, bare) = (fs_request_of(0), fs_request_of(1), fs_request_of(2));
            let session = JsonView::Str("fake-session"@);
            &&& file.0 == "fs/read_text_file"@ && terminal.0 == "terminal/create"@ && bare.0
                == "fs/read_text_file"@
            &&& at(file.1, "sessionId"@) == session && at(terminal.1, "sessionId"@) == session
            &&& at(bare.1, "sessionId"@) is Null
            &&& at(file.1, "path"@) == JsonView::Str("/etc/passwd"@) && at(bare.1, "path"@)
                == JsonView::Str("/etc/passwd"@)
            &&& at(terminal.1, "command"@) == JsonView::Str("id"@)
        }),
{
    broadcast use lemma_at_put;

    lemma_message_fields();
    lemma_no_fields("sessionId"@);
}

} // verus!
