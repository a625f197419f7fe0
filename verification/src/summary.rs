//! `bot-harness summary`: summary.json (agent-run-summary/v1, defined in
//! docs/devspace-agent-runs.md in cgwalters-bot/homegit) from a recorded
//! run: its `acp.jsonl` and `harness.json`, plus what the supervisor
//! measured (META), the agent's `outcome.json` and the inference proxy's
//! `token-usage.jsonl`.

use crate::digest::{
    denial_views, fed, flushed, new_digest, started_of, Denial, DenialView, Digest, DigestView, Dir,
    Log,
};
use crate::invariants::{
    is_update, knows, law_calls_are_kept, law_every_call_is_there_once,
    law_every_permission_counts_once, law_messages_are_untimed, law_sessions_stay_well_formed,
    law_starts_are_untimed, untimed, update_id, well_formed,
};
use crate::json::{
    at, has_field, i64_of, items_of, json_parse, json_text, json_views, json_views_empty, json_views_push,
    lemma_array_view, lemma_at_put, opt_json, opt_unsigned_json, put, u64_of, unsigned_json, Fields,
    Json, JsonView,
};
use crate::run::{
    after_record, outcome_text, Outcome, Record, RecordView, RunResult, RunResultView, EXIT_TIMEOUT,
};
use crate::table::{
    keys_ascend, law_first_entry_counts, law_placed_keys_ascend, law_placed_then_value, placed,
    value_of, Sorted,
};
use crate::text::{cut, cut_text};
use crate::toolcall::{call_views, display_name_of, CallView, ToolCall};
use crate::views::views;
use vstd::prelude::*;

verus! {

broadcast use {json_views_push, json_views_empty, lemma_array_view};

pub const SCHEMA: &'static str = "agent-run-summary/v1";

/// summary.json lists at most this many of the slowest tool calls.
pub const MAX_SLOWEST: usize = 10;

// ---- Reading the inputs ------------------------------------------------

/// The values of the lines that are JSON.
pub open spec fn values_in(lines: Seq<Seq<char>>) -> Seq<JsonView>
    decreases lines.len(),
{
    if lines.len() == 0 {
        Seq::empty()
    } else {
        match json_parse(lines.last()) {
            Some(v) => values_in(lines.drop_last()).push(v),
            None => values_in(lines.drop_last()),
        }
    }
}

/// Reads the lines of a JSON Lines file; lines that aren't JSON are skipped.
pub fn read_jsonl(lines: &Vec<String>) -> (r: Vec<Json>)
    ensures
        json_views(r@) == values_in(views(lines@)),
{
    let ghost all = views(lines@);
    let mut r: Vec<Json> = Vec::new();
    assert(all.take(0) =~= Seq::<Seq<char>>::empty());
    for i in 0..lines.len()
        invariant
            all == views(lines@),
            json_views(r@) == values_in(all.take(i as int)),
    {
        assert(all.take(i + 1).drop_last() =~= all.take(i as int));
        assert(all.take(i + 1).last() == lines@[i as int]@);
        if let Some(v) = Json::parse(lines[i].as_str()) {
            r.push(v);
        }
    }
    assert(all.take(lines@.len() as int) =~= all);
    r
}

/// The agent writes outcome.json: anything but an object is none.
pub fn outcome_or_none(read: Option<Json>) -> (r: Json)
    ensures
        r@ == match read {
            Some(v) => if v@ is Object {
                v@
            } else {
                JsonView::Object(Seq::empty())
            },
            None => JsonView::Object(Seq::empty()),
        },
{
    if let Some(v) = read {
        if v.is_object() {
            return v;
        }
    }
    Json::Object(Fields::new())
}

// ---- Replaying a recording ---------------------------------------------

/// The records of a list.
pub open spec fn record_views(v: Seq<Record>) -> Seq<RecordView> {
    Seq::new(v.len(), |i: int| v[i]@)
}

/// The session after these records. ELAPSED holds, for each record, how
/// many whole seconds before it the call that it is about started.
pub open spec fn followed(records: Seq<RecordView>, elapsed: Seq<u64>) -> DigestView
    decreases records.len(),
{
    if records.len() == 0 {
        new_digest()
    } else {
        after_record(
            Log { d: followed(records.drop_last(), elapsed.drop_last()), out: Seq::empty() },
            records.last(),
            elapsed.last(),
        ).d
    }
}

/// The session after its recording.
pub open spec fn replayed(records: Seq<RecordView>, elapsed: Seq<u64>) -> DigestView {
    flushed(Log { d: followed(records, elapsed), out: Seq::empty() }).d
}

/// However long a session, every call of it is there once, and those that
/// ended are summed up and timed.
pub proof fn law_recorded_sessions_are_well_formed(records: Seq<RecordView>, elapsed: Seq<u64>)
    ensures
        well_formed(followed(records, elapsed)),
    decreases records.len(),
{
    if records.len() > 0 {
        law_recorded_sessions_are_well_formed(records.drop_last(), elapsed.drop_last());
        if let Some(msg) = records.last().msg {
            law_sessions_stay_well_formed(
                followed(records.drop_last(), elapsed.drop_last()),
                records.last().ts,
                elapsed.last(),
                records.last().dir,
                msg,
            );
        }
    }
}

/// A record in which the agent announces the tool call ID.
pub open spec fn announces(record: RecordView, id: Seq<char>) -> bool {
    match record.msg {
        Some(msg) => is_update(record.dir, msg, "tool_call"@) && update_id(msg) == id,
        None => false,
    }
}

/// However long a session, its calls are those that the agent announced.
pub proof fn law_calls_are_those_announced(
    records: Seq<RecordView>,
    elapsed: Seq<u64>,
    id: Seq<char>,
)
    ensures
        knows(followed(records, elapsed).calls, id) <==> exists|i: int|
            0 <= i < records.len() && announces(#[trigger] records[i], id),
    decreases records.len(),
{
    if records.len() > 0 {
        let rest = records.drop_last();
        let last = records.last();
        let before = followed(rest, elapsed.drop_last());
        law_calls_are_those_announced(rest, elapsed.drop_last(), id);
        if exists|i: int| 0 <= i < rest.len() && announces(#[trigger] rest[i], id) {
            let i = choose|i: int| 0 <= i < rest.len() && announces(#[trigger] rest[i], id);
            assert(announces(records[i], id));
        }
        if announces(last, id) {
            assert(announces(records[records.len() - 1], id));
        }
        assert forall|i: int| 0 <= i < records.len() && announces(#[trigger] records[i], id) implies
            knows(before.calls, id) || announces(last, id) by {
            if i < rest.len() {
                assert(announces(rest[i], id));
            }
        }
        if let Some(msg) = last.msg {
            lemma_known_calls(before, last.ts, elapsed.last(), last.dir, msg, id);
        }
    }
}

/// A message makes no call unknown, and only the one that it announces
/// known.
proof fn lemma_known_calls(
    d: DigestView,
    ts: u64,
    elapsed_s: u64,
    dir: Dir,
    msg: JsonView,
    id: Seq<char>,
)
    ensures
        knows(fed(Log { d, out: Seq::empty() }, ts, elapsed_s, dir, msg).d.calls, id) <==> knows(
            d.calls,
            id,
        ) || (is_update(dir, msg, "tool_call"@) && update_id(msg) == id),
{
    let after = fed(Log { d, out: Seq::empty() }, ts, elapsed_s, dir, msg).d.calls;
    law_every_call_is_there_once(d, ts, elapsed_s, dir, msg, 0);
    assert forall|i: int| 0 <= i < d.calls.len() implies (#[trigger] after[i]).id
        == d.calls[i].id by {
        law_calls_are_kept(d, ts, elapsed_s, dir, msg, i);
    }
    if knows(d.calls, id) {
        let i = choose|i: int| 0 <= i < d.calls.len() && (#[trigger] d.calls[i]).id == id;
        assert(after[i].id == id);
    }
    if is_update(dir, msg, "tool_call"@) && update_id(msg) == id && !knows(d.calls, id) {
        assert(after[after.len() - 1].id == id);
    }
    if knows(after, id) {
        let i = choose|i: int| 0 <= i < after.len() && (#[trigger] after[i]).id == id;
        if i < d.calls.len() {
            assert(d.calls[i].id == id);
        }
    }
}

/// When the call that record I is about started, where it was seen before.
pub open spec fn start_at(records: Seq<RecordView>, elapsed: Seq<u64>, i: int) -> Option<u64> {
    match records[i].msg {
        Some(msg) => started_of(followed(records.take(i), elapsed.take(i)), msg),
        None => None,
    }
}

/// Calls that took no time.
pub open spec fn no_time(n: nat) -> Seq<u64> {
    Seq::new(n, |i: int| 0u64)
}

proof fn lemma_allowed_is_bounded(records: Seq<RecordView>, elapsed: Seq<u64>)
    requires
        records.len() == elapsed.len(),
        records.len() <= u64::MAX,
    ensures
        followed(records, elapsed).allowed <= records.len(),
    decreases records.len(),
{
    if records.len() > 0 {
        lemma_allowed_is_bounded(records.drop_last(), elapsed.drop_last());
        let d = followed(records.drop_last(), elapsed.drop_last());
        let r = records.last();
        if let Some(msg) = r.msg {
            law_every_permission_counts_once(d, r.ts, elapsed.last(), r.dir, msg);
        }
    }
}

proof fn lemma_followed_is_untimed(records: Seq<RecordView>, a: Seq<u64>, b: Seq<u64>)
    requires
        records.len() == a.len(),
        records.len() == b.len(),
    ensures
        untimed(followed(records, a)) == untimed(followed(records, b)),
    decreases records.len(),
{
    if records.len() > 0 {
        lemma_followed_is_untimed(records.drop_last(), a.drop_last(), b.drop_last());
        let x = Log { d: followed(records.drop_last(), a.drop_last()), out: Seq::empty() };
        let y = Log { d: followed(records.drop_last(), b.drop_last()), out: Seq::empty() };
        let r = records.last();
        if let Some(msg) = r.msg {
            law_messages_are_untimed(x, r.ts, a.last(), r.dir, msg);
            law_messages_are_untimed(y, r.ts, b.last(), r.dir, msg);
        }
    }
}

/// When the calls of a recording started does not depend on how long they
/// took.
pub proof fn law_starts_are_known_before_durations(
    records: Seq<RecordView>,
    a: Seq<u64>,
    b: Seq<u64>,
    i: int,
)
    requires
        records.len() == a.len(),
        records.len() == b.len(),
        0 <= i < records.len(),
    ensures
        start_at(records, a, i) == start_at(records, b, i),
{
    lemma_followed_is_untimed(records.take(i), a.take(i), b.take(i));
    if let Some(msg) = records[i].msg {
        law_starts_are_untimed(followed(records.take(i), a.take(i)), msg);
        law_starts_are_untimed(followed(records.take(i), b.take(i)), msg);
    }
}

fn follow(d: &mut Digest, r: &Record, elapsed_s: u64)
    requires
        old(d).allowed < u64::MAX,
    ensures
        final(d)@ == after_record(Log { d: old(d)@, out: Seq::empty() }, r@, elapsed_s).d,
{
    if let Some(msg) = &r.msg {
        let _ = d.feed(r.ts, elapsed_s, r.dir, msg);
    }
}

/// When the call that each record is about started, where it was seen
/// before.
pub fn call_starts(records: &Vec<Record>) -> (r: Vec<Option<u64>>)
    ensures
        r@.len() == records@.len(),
        forall|elapsed: Seq<u64>, i: int|
            elapsed.len() == records@.len() && 0 <= i < records@.len() ==> r@[i]
                == #[trigger] start_at(record_views(records@), elapsed, i),
{
    let mut d = Digest::new();
    let mut r: Vec<Option<u64>> = Vec::new();
    let ghost all = record_views(records@);
    let ghost zero = no_time(all.len());
    assert(all.take(0) =~= Seq::<RecordView>::empty());
    for i in 0..records.len()
        invariant
            all == record_views(records@),
            zero == no_time(all.len()),
            d@ == followed(all.take(i as int), zero.take(i as int)),
            r@.len() == i,
            forall|k: int| 0 <= k < i ==> r@[k] == #[trigger] start_at(all, zero, k),
    {
        proof {
            lemma_allowed_is_bounded(all.take(i as int), zero.take(i as int));
            assert(all.take(i + 1).drop_last() =~= all.take(i as int));
            assert(zero.take(i + 1).drop_last() =~= zero.take(i as int));
            assert(all.take(i + 1).last() == records@[i as int]@);
        }
        let start: Option<u64> = match &records[i].msg {
            Some(msg) => d.started(msg),
            None => None,
        };
        assert(start == start_at(all, zero, i as int));
        r.push(start);
        follow(&mut d, &records[i], 0);
    }
    assert forall|elapsed: Seq<u64>, i: int|
        elapsed.len() == records@.len() && 0 <= i < records@.len() implies r@[i]
        == #[trigger] start_at(all, elapsed, i) by {
        law_starts_are_known_before_durations(all, elapsed, zero, i);
        assert(r@[i] == start_at(all, zero, i));
    }
    r
}

/// Replays a recorded session through the digest. ELAPSED holds, for each
/// record, how many whole seconds before it the call that it is about
/// started.
pub fn replay(records: &Vec<Record>, elapsed: &Vec<u64>) -> (d: Digest)
    requires
        records@.len() == elapsed@.len(),
    ensures
        d@ == replayed(record_views(records@), elapsed@),
{
    let mut d = Digest::new();
    let ghost all = record_views(records@);
    assert(all.take(0) =~= Seq::<RecordView>::empty());
    for i in 0..records.len()
        invariant
            records@.len() == elapsed@.len(),
            all == record_views(records@),
            d@ == followed(all.take(i as int), elapsed@.take(i as int)),
    {
        proof {
            lemma_allowed_is_bounded(all.take(i as int), elapsed@.take(i as int));
            assert(all.take(i + 1).drop_last() =~= all.take(i as int));
            assert(elapsed@.take(i + 1).drop_last() =~= elapsed@.take(i as int));
            assert(all.take(i + 1).last() == records@[i as int]@);
        }
        follow(&mut d, &records[i], elapsed[i]);
    }
    assert(all.take(records@.len() as int) =~= all);
    assert(elapsed@.take(records@.len() as int) =~= elapsed@);
    let _ = d.finish();
    d
}

/// What is followed live is what is replayed: one more record of a session
/// takes its digest to that of the longer recording.
pub proof fn law_live_is_replayed(
    records: Seq<RecordView>,
    elapsed: Seq<u64>,
    r: RecordView,
    elapsed_s: u64,
)
    ensures
        after_record(Log { d: followed(records, elapsed), out: Seq::empty() }, r, elapsed_s).d
            == followed(records.push(r), elapsed.push(elapsed_s)),
{
    assert(records.push(r).drop_last() =~= records);
    assert(elapsed.push(elapsed_s).drop_last() =~= elapsed);
}

// ---- Tokens ------------------------------------------------------------

/// The sum of a count over the requests of the proxy's log; a request
/// without it counts for nothing.
pub open spec fn token_sum(log: Seq<JsonView>, key: Seq<char>) -> nat
    decreases log.len(),
{
    if log.len() == 0 {
        0
    } else {
        token_sum(log.drop_last(), key) + match u64_of(at(log.last(), key)) {
            Some(n) => n as nat,
            None => 0,
        }
    }
}

/// A request that offered the model tools.
pub open spec fn is_turn(r: JsonView) -> bool {
    at(r, "tools"@) != JsonView::Bool(false)
}

/// How many requests offered the model tools.
pub open spec fn turns_in(log: Seq<JsonView>) -> nat
    decreases log.len(),
{
    if log.len() == 0 {
        0
    } else {
        turns_in(log.drop_last()) + if is_turn(log.last()) {
            1nat
        } else {
            0
        }
    }
}

/// Token counts, as summary.json has them.
pub open spec fn tokens_json(
    input: JsonView,
    output: JsonView,
    cache_read: JsonView,
    cache_write: JsonView,
) -> JsonView {
    JsonView::Object(
        put(
            put(
                put(put(Seq::empty(), "input"@, input), "output"@, output),
                "cache_read"@,
                cache_read,
            ),
            "cache_write"@,
            cache_write,
        ),
    )
}

/// The token counts of the proxy's log.
pub open spec fn proxy_tokens(log: Seq<JsonView>) -> JsonView {
    tokens_json(
        unsigned_json(token_sum(log, "input_tokens"@) as u64),
        unsigned_json(token_sum(log, "output_tokens"@) as u64),
        unsigned_json(token_sum(log, "cache_read_input_tokens"@) as u64),
        unsigned_json(token_sum(log, "cache_creation_input_tokens"@) as u64),
    )
}

/// The sums of the proxy's log are numbers that summary.json can hold.
pub open spec fn tokens_fit(log: Seq<JsonView>) -> bool {
    &&& token_sum(log, "input_tokens"@) <= u64::MAX
    &&& token_sum(log, "output_tokens"@) <= u64::MAX
    &&& token_sum(log, "cache_read_input_tokens"@) <= u64::MAX
    &&& token_sum(log, "cache_creation_input_tokens"@) <= u64::MAX
}

proof fn lemma_sum_grows(log: Seq<JsonView>, key: Seq<char>, n: int)
    requires
        0 <= n <= log.len(),
    ensures
        token_sum(log.take(n), key) <= token_sum(log, key),
    decreases log.len(),
{
    if n == log.len() {
        assert(log.take(n) =~= log);
    } else {
        lemma_sum_grows(log.drop_last(), key, n);
        assert(log.drop_last().take(n) =~= log.take(n));
    }
}

/// The sum of a count; none where no `u64` holds it.
fn sum_tokens(log: &Vec<Json>, key: &str) -> (r: Option<u64>)
    ensures
        match r {
            Some(n) => n == token_sum(json_views(log@), key@),
            None => token_sum(json_views(log@), key@) > u64::MAX,
        },
{
    let ghost all = json_views(log@);
    let mut sum: u64 = 0;
    assert(all.take(0) =~= Seq::<JsonView>::empty());
    for i in 0..log.len()
        invariant
            all == json_views(log@),
            sum == token_sum(all.take(i as int), key@),
    {
        proof {
            assert(all.take(i + 1).drop_last() =~= all.take(i as int));
            assert(all.take(i + 1).last() == log@[i as int]@);
            lemma_sum_grows(all, key@, i + 1);
        }
        if let Some(n) = log[i].at(key).as_u64() {
            match sum.checked_add(n) {
                Some(s) => {
                    sum = s;
                },
                None => {
                    return None;
                },
            }
        }
    }
    assert(all.take(log@.len() as int) =~= all);
    Some(sum)
}

fn count_turns(log: &Vec<Json>) -> (r: u64)
    ensures
        r == turns_in(json_views(log@)),
{
    let ghost all = json_views(log@);
    let mut n: u64 = 0;
    assert(all.take(0) =~= Seq::<JsonView>::empty());
    for i in 0..log.len()
        invariant
            all == json_views(log@),
            n <= i,
            n == turns_in(all.take(i as int)),
    {
        proof {
            assert(all.take(i + 1).drop_last() =~= all.take(i as int));
            assert(all.take(i + 1).last() == log@[i as int]@);
        }
        let side = match log[i].at("tools") {
            Json::Bool(b) => !*b,
            _ => false,
        };
        if !side {
            n = n + 1;
        }
    }
    assert(all.take(log@.len() as int) =~= all);
    n
}

fn tokens(input: Json, output: Json, cache_read: Json, cache_write: Json) -> (r: Json)
    ensures
        r@ == tokens_json(input@, output@, cache_read@, cache_write@),
{
    Json::Object(
        Fields::new().with("input", input).with("output", output).with(
            "cache_read",
            cache_read,
        ).with("cache_write", cache_write),
    )
}

/// Token counts from the inference proxy's log, one request per line:
/// (turns, tokens). A turn is a request that offered the model tools; side
/// calls (titles, summaries) don't count.
pub fn proxy_usage(log: &Vec<Json>) -> (r: (u64, Json))
    requires
        tokens_fit(json_views(log@)),
    ensures
        r.0 == turns_in(json_views(log@)),
        r.1@ == proxy_tokens(json_views(log@)),
{
    let t = tokens(
        Json::unsigned(sum_tokens(log, "input_tokens").unwrap()),
        Json::unsigned(sum_tokens(log, "output_tokens").unwrap()),
        Json::unsigned(sum_tokens(log, "cache_read_input_tokens").unwrap()),
        Json::unsigned(sum_tokens(log, "cache_creation_input_tokens").unwrap()),
    );
    (count_turns(log), t)
}

/// The token counts of a `session/prompt` response's usage.
pub open spec fn acp_tokens(usage: JsonView) -> JsonView {
    tokens_json(
        at(usage, "inputTokens"@),
        at(usage, "outputTokens"@),
        at(usage, "cachedReadTokens"@),
        at(usage, "cachedWriteTokens"@),
    )
}

/// Token counts from the `session/prompt` response (a draft ACP field).
pub fn acp_usage(usage: &Json) -> (r: Json)
    ensures
        r@ == acp_tokens(usage@),
{
    tokens(
        usage.at("inputTokens").copy(),
        usage.at("outputTokens").copy(),
        usage.at("cachedReadTokens").copy(),
        usage.at("cachedWriteTokens").copy(),
    )
}

// ---- Tools -------------------------------------------------------------

/// What the calls of a tool come to.
#[derive(Debug, Clone, Copy)]
pub struct ToolCount {
    pub calls: u64,
    pub errors: u64,
    pub duration_s: u64,
}

/// What the calls of a tool come to.
pub struct CountView {
    pub calls: nat,
    pub errors: nat,
    pub duration_s: nat,
}

impl View for ToolCount {
    type V = CountView;

    open spec fn view(&self) -> CountView {
        CountView {
            calls: self.calls as nat,
            errors: self.errors as nat,
            duration_s: self.duration_s as nat,
        }
    }
}

/// How long a call took; nothing, if it didn't end.
pub open spec fn seconds_of(call: CallView) -> nat {
    match call.duration_s {
        Some(n) => n as nat,
        None => 0,
    }
}

/// What the calls of a tool come to with one more.
pub open spec fn counting(count: Option<CountView>, call: CallView) -> CountView {
    let before = match count {
        Some(c) => c,
        None => CountView { calls: 0, errors: 0, duration_s: 0 },
    };
    CountView {
        calls: before.calls + 1,
        errors: before.errors + if call.error == Some(true) {
            1nat
        } else {
            0
        },
        duration_s: before.duration_s + seconds_of(call),
    }
}

/// What the calls of the tool NAME come to; none where it was not called.
pub open spec fn counted(calls: Seq<CallView>, name: Seq<char>) -> Option<CountView>
    decreases calls.len(),
{
    if calls.len() == 0 {
        None
    } else if display_name_of(calls.last()) == name {
        Some(counting(counted(calls.drop_last(), name), calls.last()))
    } else {
        counted(calls.drop_last(), name)
    }
}

/// What the calls of each tool come to, by the tools' names.
pub open spec fn tools_of(calls: Seq<CallView>) -> Seq<(Seq<char>, CountView)>
    decreases calls.len(),
{
    if calls.len() == 0 {
        Seq::empty()
    } else {
        let before = tools_of(calls.drop_last());
        let name = display_name_of(calls.last());
        placed(before, name, counting(value_of(before, name), calls.last()))
    }
}

/// The seconds of each tool's calls are a number that summary.json can hold.
pub open spec fn seconds_fit(calls: Seq<CallView>) -> bool {
    forall|name: Seq<char>|
        (#[trigger] counted(calls, name)) is Some ==> counted(calls, name)->0.duration_s <= u64::MAX
}

/// The tools' names are in order, each is there once, and every call of a
/// tool counts for it.
pub proof fn law_tools_count_every_call(calls: Seq<CallView>, name: Seq<char>)
    ensures
        keys_ascend(tools_of(calls)),
        value_of(tools_of(calls), name) == counted(calls, name),
    decreases calls.len(),
{
    if calls.len() > 0 {
        let before = tools_of(calls.drop_last());
        let last = display_name_of(calls.last());
        law_tools_count_every_call(calls.drop_last(), name);
        law_tools_count_every_call(calls.drop_last(), last);
        let count = counting(value_of(before, last), calls.last());
        law_placed_keys_ascend(before, last, count);
        law_placed_then_value(before, last, count, name);
    }
}

proof fn lemma_counts_are_bounded(calls: Seq<CallView>, name: Seq<char>)
    ensures
        counted(calls, name) is Some ==> counted(calls, name)->0.calls <= calls.len() && counted(
            calls,
            name,
        )->0.errors <= calls.len(),
    decreases calls.len(),
{
    if calls.len() > 0 {
        lemma_counts_are_bounded(calls.drop_last(), name);
    }
}

proof fn lemma_counts_grow(calls: Seq<CallView>, n: int, name: Seq<char>)
    requires
        0 <= n <= calls.len(),
        counted(calls.take(n), name) is Some,
    ensures
        counted(calls, name) is Some,
        counted(calls.take(n), name)->0.duration_s <= counted(calls, name)->0.duration_s,
    decreases calls.len(),
{
    if n == calls.len() {
        assert(calls.take(n) =~= calls);
    } else {
        assert(calls.drop_last().take(n) =~= calls.take(n));
        lemma_counts_grow(calls.drop_last(), n, name);
    }
}

/// What the calls of each tool come to; none where the seconds of one don't
/// fit.
fn count_tools(calls: &Vec<ToolCall>) -> (r: Option<Sorted<ToolCount>>)
    ensures
        match r {
            Some(tools) => seconds_fit(call_views(calls@)) && tools@ == tools_of(call_views(calls@)),
            None => !seconds_fit(call_views(calls@)),
        },
{
    let ghost all = call_views(calls@);
    let mut tools: Sorted<ToolCount> = Sorted::new();
    assert(all.take(0) =~= Seq::<CallView>::empty());
    for i in 0..calls.len()
        invariant
            all == call_views(calls@),
            tools@ == tools_of(all.take(i as int)),
            seconds_fit(all.take(i as int)),
    {
        let name = calls[i].display_name();
        let ghost before_calls = all.take(i as int);
        let ghost after_calls = all.take(i + 1);
        proof {
            assert(after_calls.drop_last() =~= before_calls);
            assert(after_calls.last() == calls@[i as int]@);
            law_tools_count_every_call(before_calls, name@);
            lemma_counts_are_bounded(before_calls, name@);
        }
        let before = match tools.get(name.as_str()) {
            Some(c) => *c,
            None => ToolCount { calls: 0, errors: 0, duration_s: 0 },
        };
        let failed: u64 = match calls[i].error {
            Some(true) => 1,
            _ => 0,
        };
        let secs: u64 = match calls[i].duration_s {
            Some(n) => n,
            None => 0,
        };
        let duration_s: u64 = match before.duration_s.checked_add(secs) {
            Some(sum) => sum,
            None => {
                proof {
                    lemma_counts_grow(all, i + 1, name@);
                }
                return None;
            },
        };
        let count = ToolCount { calls: before.calls + 1, errors: before.errors + failed, duration_s };
        proof {
            assert(count@ == counting(value_of(tools@, name@), all[i as int]));
            assert forall|other: Seq<char>| (#[trigger] counted(after_calls, other)) is Some implies
                counted(after_calls, other)->0.duration_s <= u64::MAX by {
                assert(counted(before_calls, other) is Some ==> counted(
                    before_calls,
                    other,
                )->0.duration_s <= u64::MAX);
            }
        }
        tools = tools.with(name.as_str(), count);
    }
    assert(all.take(calls@.len() as int) =~= all);
    Some(tools)
}

/// A tool's count as summary.json has it.
pub open spec fn count_json(c: CountView) -> JsonView {
    JsonView::Object(
        put(
            put(
                put(Seq::empty(), "calls"@, unsigned_json(c.calls as u64)),
                "errors"@,
                unsigned_json(c.errors as u64),
            ),
            "duration_s"@,
            unsigned_json(c.duration_s as u64),
        ),
    )
}

/// The tools' counts as fields.
pub open spec fn tool_fields(tools: Seq<(Seq<char>, CountView)>) -> Seq<(Seq<char>, JsonView)>
    decreases tools.len(),
{
    if tools.len() == 0 {
        Seq::empty()
    } else {
        put(tool_fields(tools.drop_last()), tools.last().0, count_json(tools.last().1))
    }
}

fn tools_json(calls: &Vec<ToolCall>) -> (r: Json)
    requires
        seconds_fit(call_views(calls@)),
    ensures
        r@ == JsonView::Object(tool_fields(tools_of(call_views(calls@)))),
{
    let tools = count_tools(calls).unwrap();
    let ghost all = tools@;
    let mut fields = Fields::new();
    let n = tools.len();
    assert(all.take(0) =~= Seq::<(Seq<char>, CountView)>::empty());
    for i in 0..n
        invariant
            n == tools@.len(),
            all == tools@,
            fields@ == tool_fields(all.take(i as int)),
    {
        assert(all.take(i + 1).drop_last() =~= all.take(i as int));
        let c = tools.value(i);
        let json = Fields::new().with("calls", Json::unsigned(c.calls)).with(
            "errors",
            Json::unsigned(c.errors),
        ).with("duration_s", Json::unsigned(c.duration_s));
        fields = fields.with(tools.key(i), Json::Object(json));
    }
    assert(all.take(n as int) =~= all);
    Json::Object(fields)
}

// ---- The slowest calls -------------------------------------------------

/// Call I comes before call J among the slowest: it took longer, or as long
/// and started before.
pub open spec fn slower(calls: Seq<CallView>, i: int, j: int) -> bool {
    seconds_of(calls[i]) > seconds_of(calls[j]) || (seconds_of(calls[i]) == seconds_of(calls[j])
        && i < j)
}

/// ORDER lists each of the first N calls that ended once, the slowest first.
pub open spec fn is_ranking(calls: Seq<CallView>, n: int, order: Seq<int>) -> bool {
    &&& forall|k: int|
        0 <= k < order.len() ==> 0 <= #[trigger] order[k] < n && calls[order[k]].duration_s is Some
    &&& forall|i: int| 0 <= i < n && (#[trigger] calls[i]).duration_s is Some ==> order.contains(i)
    &&& forall|k: int, m: int|
        0 <= k < m < order.len() ==> slower(calls, #[trigger] order[k], #[trigger] order[m])
}

/// Which call each number of a list stands for.
pub open spec fn as_ints(v: Seq<usize>) -> Seq<int> {
    Seq::new(v.len(), |i: int| v[i] as int)
}

/// The calls that ended, the slowest first.
pub open spec fn ranking(calls: Seq<CallView>) -> Seq<int> {
    choose|order: Seq<int>| is_ranking(calls, calls.len() as int, order)
}

fn rank(calls: &Vec<ToolCall>) -> (r: Vec<usize>)
    ensures
        is_ranking(call_views(calls@), calls@.len() as int, as_ints(r@)),
        as_ints(r@) == ranking(call_views(calls@)),
{
    let ghost all = call_views(calls@);
    let mut order: Vec<usize> = Vec::new();
    for i in 0..calls.len()
        invariant
            all == call_views(calls@),
            is_ranking(all, i as int, as_ints(order@)),
    {
        let ghost was = as_ints(order@);
        if let Some(secs) = calls[i].duration_s {
            let mut p: usize = 0;
            assert forall|k: int| 0 <= k < order@.len() implies (#[trigger] order@[k])
                < calls@.len() && calls@[order@[k] as int].duration_s is Some by {
                assert(was[k] == order@[k]);
                assert(all[was[k]].duration_s is Some);
            }
            while p < order.len() && calls[order[p]].duration_s.unwrap() >= secs
                invariant
                    i < calls@.len(),
                    all == call_views(calls@),
                    calls@[i as int].duration_s == Some(secs),
                    was == as_ints(order@),
                    is_ranking(all, i as int, was),
                    p <= order@.len(),
                    forall|k: int|
                        0 <= k < p ==> seconds_of(all[#[trigger] was[k]]) >= secs,
                    forall|k: int|
                        0 <= k < order@.len() ==> (#[trigger] order@[k]) < calls@.len()
                            && calls@[order@[k] as int].duration_s is Some,
                decreases order@.len() - p,
            {
                assert(was[p as int] == order@[p as int]);
                p += 1;
            }
            proof {
                assert forall|k: int| p <= k < was.len() implies seconds_of(all[#[trigger] was[k]])
                    < secs by {
                    assert(was[p as int] == order@[p as int]);
                    if k > p {
                        assert(slower(all, was[p as int], was[k]));
                    }
                }
            }
            order.insert(p, i);
            proof {
                let now = as_ints(order@);
                assert(now =~= was.insert(p as int, i as int));
                assert forall|k: int| 0 <= k < now.len() implies 0 <= #[trigger] now[k] < i + 1
                    && all[now[k]].duration_s is Some by {
                    if k < p {
                        assert(now[k] == was[k]);
                    } else if k > p {
                        assert(now[k] == was[k - 1]);
                    }
                }
                assert forall|j: int|
                    0 <= j < i + 1 && (#[trigger] all[j]).duration_s is Some implies now.contains(
                    j,
                ) by {
                    if j == i {
                        assert(now[p as int] == j);
                    } else {
                        assert(was.contains(j));
                        let k = choose|k: int| 0 <= k < was.len() && was[k] == j;
                        assert(now[if k < p { k } else { k + 1 }] == j);
                    }
                }
                assert forall|k: int, m: int| 0 <= k < m < now.len() implies slower(
                    all,
                    #[trigger] now[k],
                    #[trigger] now[m],
                ) by {
                    let a = if k < p { k } else { k - 1 };
                    let b = if m < p { m } else { m - 1 };
                    if k != p {
                        assert(now[k] == was[a]);
                        assert(0 <= was[a] < i);
                    }
                    if m != p {
                        assert(now[m] == was[b]);
                        assert(0 <= was[b] < i);
                    }
                    if k != p && m != p {
                        assert(slower(all, was[a], was[b]));
                    }
                }
            }
        } else {
            assert forall|j: int|
                0 <= j < i + 1 && (#[trigger] all[j]).duration_s is Some implies was.contains(j) by {
                assert(all[i as int].duration_s is None);
            }
        }
    }
    proof {
        let n = calls@.len() as int;
        assert(is_ranking(all, n, as_ints(order@)));
        law_one_ranking(all, n, as_ints(order@), ranking(all));
    }
    order
}

/// The calls that ended have one ranking.
pub proof fn law_one_ranking(calls: Seq<CallView>, n: int, a: Seq<int>, b: Seq<int>)
    requires
        is_ranking(calls, n, a),
        is_ranking(calls, n, b),
    ensures
        a == b,
    decreases a.len(),
{
    lemma_one_ranking(calls, a, b);
}

proof fn lemma_one_ranking(calls: Seq<CallView>, a: Seq<int>, b: Seq<int>)
    requires
        forall|k: int| 0 <= k < a.len() ==> b.contains(#[trigger] a[k]),
        forall|k: int| 0 <= k < b.len() ==> a.contains(#[trigger] b[k]),
        forall|k: int, m: int|
            0 <= k < m < a.len() ==> slower(calls, #[trigger] a[k], #[trigger] a[m]),
        forall|k: int, m: int|
            0 <= k < m < b.len() ==> slower(calls, #[trigger] b[k], #[trigger] b[m]),
    ensures
        a == b,
    decreases a.len(),
{
    if a.len() == 0 {
        if b.len() > 0 {
            assert(a.contains(b[0]));
        }
        assert(a =~= b);
    } else {
        assert(b.contains(a[a.len() - 1]));
        let i = choose|i: int| 0 <= i < b.len() && b[i] == a[a.len() - 1];
        assert(a.contains(b[b.len() - 1]));
        let j = choose|j: int| 0 <= j < a.len() && a[j] == b[b.len() - 1];
        assert(a[a.len() - 1] == b[b.len() - 1]) by {
            if i < b.len() - 1 && j < a.len() - 1 {
                assert(slower(calls, b[i], b[b.len() - 1]));
                assert(slower(calls, a[j], a[a.len() - 1]));
            }
        }
        let x = a.drop_last();
        let y = b.drop_last();
        assert forall|k: int| 0 <= k < x.len() implies y.contains(#[trigger] x[k]) by {
            assert(x[k] == a[k]);
            assert(slower(calls, a[k], a[a.len() - 1]));
            assert(b.contains(a[k]));
            let m = choose|m: int| 0 <= m < b.len() && b[m] == a[k];
            assert(m < y.len());
            assert(y[m] == x[k]);
        }
        assert forall|k: int| 0 <= k < y.len() implies x.contains(#[trigger] y[k]) by {
            assert(y[k] == b[k]);
            assert(slower(calls, b[k], b[b.len() - 1]));
            assert(a.contains(b[k]));
            let m = choose|m: int| 0 <= m < a.len() && a[m] == b[k];
            assert(m < x.len());
            assert(x[m] == y[k]);
        }
        assert forall|k: int, m: int| 0 <= k < m < x.len() implies slower(
            calls,
            #[trigger] x[k],
            #[trigger] x[m],
        ) by {
            assert(x[k] == a[k] && x[m] == a[m]);
        }
        assert forall|k: int, m: int| 0 <= k < m < y.len() implies slower(
            calls,
            #[trigger] y[k],
            #[trigger] y[m],
        ) by {
            assert(y[k] == b[k] && y[m] == b[m]);
        }
        lemma_one_ranking(calls, x, y);
        assert(a =~= x.push(a[a.len() - 1]));
        assert(b =~= y.push(b[b.len() - 1]));
    }
}

/// A call among the slowest.
pub open spec fn slow_json(call: CallView) -> JsonView {
    JsonView::Object(
        put(
            put(
                put(Seq::empty(), "tool"@, JsonView::Str(display_name_of(call))),
                "summary"@,
                JsonView::Str(call.summary),
            ),
            "duration_s"@,
            opt_unsigned_json(call.duration_s),
        ),
    )
}

/// The slowest calls, at most MAX_SLOWEST.
pub open spec fn slowest_of(calls: Seq<CallView>) -> Seq<JsonView> {
    let order = ranking(calls);
    Seq::new(
        if order.len() < MAX_SLOWEST {
            order.len()
        } else {
            MAX_SLOWEST as nat
        },
        |k: int| slow_json(calls[order[k]]),
    )
}

fn slowest(calls: &Vec<ToolCall>) -> (r: Vec<Json>)
    ensures
        json_views(r@) == slowest_of(call_views(calls@)),
        is_ranking(call_views(calls@), calls@.len() as int, ranking(call_views(calls@))),
{
    let ghost all = call_views(calls@);
    let order = rank(calls);
    let mut r: Vec<Json> = Vec::new();
    let n: usize = if order.len() < MAX_SLOWEST {
        order.len()
    } else {
        MAX_SLOWEST
    };
    for k in 0..n
        invariant
            all == call_views(calls@),
            n <= order@.len(),
            is_ranking(all, calls@.len() as int, as_ints(order@)),
            r@.len() == k,
            forall|m: int|
                0 <= m < k ==> (#[trigger] r@[m])@ == slow_json(all[as_ints(order@)[m]]),
    {
        assert(as_ints(order@)[k as int] == order@[k as int]);
        let c = &calls[order[k]];
        let json = Fields::new().with("tool", Json::text(c.display_name().as_str())).with(
            "summary",
            Json::text(c.summary.as_str()),
        ).with("duration_s", Json::opt_unsigned(c.duration_s));
        r.push(Json::Object(json));
    }
    assert(json_views(r@) =~= slowest_of(all));
    r
}

// ---- Failures ----------------------------------------------------------

/// A failure of a kind.
pub open spec fn failure_json(kind: Seq<char>, message: Seq<char>) -> JsonView {
    JsonView::Object(
        put(
            put(Seq::empty(), "kind"@, JsonView::Str(kind)),
            "message"@,
            JsonView::Str(message),
        ),
    )
}

fn failure(kind: &str, message: &str) -> (r: Json)
    ensures
        r@ == failure_json(kind@, message@),
{
    Json::Object(
        Fields::new().with("kind", Json::text(kind)).with("message", Json::text(message)),
    )
}

/// The failed calls.
pub open spec fn tool_failures(calls: Seq<CallView>) -> Seq<JsonView>
    decreases calls.len(),
{
    if calls.len() == 0 {
        Seq::empty()
    } else {
        let before = tool_failures(calls.drop_last());
        let c = calls.last();
        if c.error == Some(true) {
            before.push(
                failure_json(
                    "tool_error"@,
                    cut_text(
                        display_name_of(c) + ": "@ + match c.message {
                            Some(m) => m,
                            None => ""@,
                        },
                    ),
                ),
            )
        } else {
            before
        }
    }
}

/// Why a run with this outcome failed, if it did: MESSAGE says it, where
/// there is one.
pub open spec fn run_failure(result: Outcome, message: Option<Seq<char>>) -> Option<JsonView> {
    match result {
        Outcome::Success => None,
        Outcome::Timeout => Some(
            failure_json("timeout"@, cut_text(why_of(message, "the agent hit the timeout"@))),
        ),
        Outcome::Budget => Some(
            failure_json("budget"@, cut_text(why_of(message, "the agent went over budget"@))),
        ),
        _ => Some(failure_json("agent_exit"@, cut_text(why_of(message, "the agent failed"@)))),
    }
}

/// MESSAGE, or what stands for none.
pub open spec fn why_of(message: Option<Seq<char>>, default: Seq<char>) -> Seq<char> {
    match message {
        Some(m) => m,
        None => default,
    }
}

/// The failed calls, and why the run failed, if it did.
pub open spec fn failures_of(
    calls: Seq<CallView>,
    result: Outcome,
    message: Option<Seq<char>>,
) -> Seq<JsonView> {
    match run_failure(result, message) {
        Some(f) => tool_failures(calls).push(f),
        None => tool_failures(calls),
    }
}

fn why(message: Option<&String>, default: &str) -> (r: String)
    ensures
        r@ == cut_text(
            why_of(
                match message {
                    Some(m) => Some(m@),
                    None => None,
                },
                default@,
            ),
        ),
{
    match message {
        Some(m) => cut(m.as_str()),
        None => cut(default),
    }
}

fn failures(calls: &Vec<ToolCall>, result: Outcome, message: Option<&String>) -> (r: Vec<Json>)
    ensures
        json_views(r@) == failures_of(
            call_views(calls@),
            result,
            match message {
                Some(m) => Some(m@),
                None => None,
            },
        ),
{
    let ghost all = call_views(calls@);
    let mut r: Vec<Json> = Vec::new();
    assert(all.take(0) =~= Seq::<CallView>::empty());
    for i in 0..calls.len()
        invariant
            all == call_views(calls@),
            json_views(r@) == tool_failures(all.take(i as int)),
    {
        proof {
            assert(all.take(i + 1).drop_last() =~= all.take(i as int));
            assert(all.take(i + 1).last() == calls@[i as int]@);
        }
        let c = &calls[i];
        if let Some(true) = c.error {
            let mut m = c.display_name();
            m.append(": ");
            match &c.message {
                Some(text) => m.append(text.as_str()),
                None => m.append(""),
            }
            r.push(failure("tool_error", cut(m.as_str()).as_str()));
        }
    }
    assert(all.take(calls@.len() as int) =~= all);
    match result {
        Outcome::Timeout => r.push(
            failure("timeout", why(message, "the agent hit the timeout").as_str()),
        ),
        Outcome::Budget => r.push(
            failure("budget", why(message, "the agent went over budget").as_str()),
        ),
        Outcome::Failure | Outcome::Cancelled => r.push(
            failure("agent_exit", why(message, "the agent failed").as_str()),
        ),
        Outcome::Success => {},
    }
    r
}

/// A run that did not succeed is among its failures; one that did has none
/// but those of its calls.
pub proof fn law_failed_runs_say_why(
    calls: Seq<CallView>,
    result: Outcome,
    message: Option<Seq<char>>,
)
    ensures
        run_failure(result, message) is None <==> result == Outcome::Success,
        failures_of(calls, result, message).len() == tool_failures(calls).len() + if result
            == Outcome::Success {
            0int
        } else {
            1
        },
{
}

// ---- Tests -------------------------------------------------------------

/// The command of a test.
pub open spec fn test_command(v: JsonView) -> Seq<char> {
    match v {
        JsonView::Str(s) => cut_text(s),
        _ => cut_text(json_text(v)),
    }
}

/// A test that the agent ran.
pub open spec fn test_json(t: JsonView) -> JsonView {
    JsonView::Object(
        put(
            put(
                put(
                    Seq::empty(),
                    "command"@,
                    JsonView::Str(test_command(at(t, "command"@))),
                ),
                "exit_code"@,
                at(t, "exit_code"@),
            ),
            "duration_s"@,
            at(t, "duration_s"@),
        ),
    )
}

/// The tests that the agent says it ran: whatever else it lists is dropped.
pub open spec fn tests_of(list: Seq<JsonView>) -> Seq<JsonView>
    decreases list.len(),
{
    if list.len() == 0 {
        Seq::empty()
    } else if list.last() is Object {
        tests_of(list.drop_last()).push(test_json(list.last()))
    } else {
        tests_of(list.drop_last())
    }
}

fn test_entry(t: &Json) -> (r: Json)
    ensures
        r@ == test_json(t@),
{
    let command = match t.at("command") {
        Json::Str(s) => cut(s.as_str()),
        other => cut(other.to_text().as_str()),
    };
    Json::Object(
        Fields::new().with("command", Json::text(command.as_str())).with(
            "exit_code",
            t.at("exit_code").copy(),
        ).with("duration_s", t.at("duration_s").copy()),
    )
}

fn tests(outcome: &Json) -> (r: Vec<Json>)
    ensures
        json_views(r@) == tests_of(items_of(at(outcome@, "tests"@))),
{
    let mut r: Vec<Json> = Vec::new();
    if let Some(list) = outcome.at("tests").as_array() {
        let ghost all = json_views(list@);
        assert(all.take(0) =~= Seq::<JsonView>::empty());
        for i in 0..list.len()
            invariant
                all == json_views(list@),
                json_views(r@) == tests_of(all.take(i as int)),
        {
            assert(all.take(i + 1).drop_last() =~= all.take(i as int));
            assert(all.take(i + 1).last() == list@[i as int]@);
            if list[i].is_object() {
                r.push(test_entry(&list[i]));
            }
        }
        assert(all.take(list@.len() as int) =~= all);
    }
    r
}

// ---- Permissions -------------------------------------------------------

/// A denied call.
pub open spec fn denial_json(d: DenialView) -> JsonView {
    JsonView::Object(
        put(
            put(
                put(Seq::empty(), "tool"@, JsonView::Str(d.tool)),
                "summary"@,
                JsonView::Str(d.summary),
            ),
            "rule"@,
            opt_json(d.rule),
        ),
    )
}

/// The denied calls.
pub open spec fn denials_json(denied: Seq<DenialView>) -> Seq<JsonView> {
    Seq::new(denied.len(), |i: int| denial_json(denied[i]))
}

/// The permissions that were asked for.
pub open spec fn permissions_json(allowed: u64, denied: Seq<DenialView>) -> JsonView {
    JsonView::Object(
        put(
            put(Seq::empty(), "allowed"@, unsigned_json(allowed)),
            "denied"@,
            JsonView::Array(denials_json(denied)),
        ),
    )
}

fn permissions(allowed: u64, denied: &Vec<Denial>) -> (r: Json)
    ensures
        r@ == permissions_json(allowed, denial_views(denied@)),
{
    let mut list: Vec<Json> = Vec::new();
    for i in 0..denied.len()
        invariant
            list@.len() == i,
            forall|k: int| 0 <= k < i ==> (#[trigger] list@[k])@ == denial_json(denied@[k]@),
    {
        let d = &denied[i];
        list.push(
            Json::Object(
                Fields::new().with("tool", Json::text(d.tool.as_str())).with(
                    "summary",
                    Json::text(d.summary.as_str()),
                ).with("rule", Json::opt_text(&d.rule)),
            ),
        );
    }
    assert(json_views(list@) =~= denials_json(denial_views(denied@)));
    Json::Object(
        Fields::new().with("allowed", Json::unsigned(allowed)).with("denied", Json::Array(list)),
    )
}

// ---- The summary -------------------------------------------------------

pub struct Inputs<'a> {
    pub records: &'a Vec<Record>,
    /// For each record, how many whole seconds before it the call that it is
    /// about started.
    pub elapsed: &'a Vec<u64>,
    /// None when the harness never wrote one (it was killed).
    pub result: Option<&'a RunResult>,
    pub meta: &'a Json,
    pub outcome: &'a Json,
    /// None without an inference proxy log.
    pub usage_log: Option<&'a Vec<Json>>,
    /// What the session cost in AIC (1 AIC = $0.01), to a tenth; null where
    /// the agent didn't say.
    pub aic: &'a Json,
}

/// What a summary is made of.
pub struct InputsView {
    /// The recorded session, replayed.
    pub digest: DigestView,
    pub result: Option<RunResultView>,
    pub meta: JsonView,
    pub outcome: JsonView,
    pub usage_log: Option<Seq<JsonView>>,
    pub aic: JsonView,
}

impl<'a> View for Inputs<'a> {
    type V = InputsView;

    open spec fn view(&self) -> InputsView {
        InputsView {
            digest: replayed(record_views(self.records@), self.elapsed@),
            result: match self.result {
                Some(r) => Some(r@),
                None => None,
            },
            meta: self.meta@,
            outcome: self.outcome@,
            usage_log: match self.usage_log {
                Some(log) => Some(json_views(log@)),
                None => None,
            },
            aic: self.aic@,
        }
    }
}

/// The sums of a summary are numbers that it can hold.
pub open spec fn summable(i: InputsView) -> bool {
    &&& seconds_fit(i.digest.calls)
    &&& i.usage_log is Some ==> tokens_fit(i.usage_log->0)
}

/// How the run ended: as the harness says, else by the supervisor's exit
/// status.
pub open spec fn result_in(i: InputsView) -> Outcome {
    match i.result {
        Some(r) => r.result,
        None => if i64_of(at(i.meta, "exit_code"@)) == Some(EXIT_TIMEOUT as i64) {
            Outcome::Timeout
        } else {
            Outcome::Failure
        },
    }
}

/// The message of the run's result.
pub open spec fn message_in(i: InputsView) -> Option<Seq<char>> {
    match i.result {
        Some(r) => r.message,
        None => None,
    }
}

/// The inference proxy has logged requests.
pub open spec fn has_proxy_log(i: InputsView) -> bool {
    i.usage_log is Some && i.usage_log->0.len() > 0
}

/// The model turns, where the proxy counted them.
pub open spec fn turns_json(i: InputsView) -> JsonView {
    if has_proxy_log(i) {
        unsigned_json(turns_in(i.usage_log->0) as u64)
    } else {
        JsonView::Null
    }
}

/// The tokens: as the proxy counted them, else as the agent did.
pub open spec fn usage_json(i: InputsView) -> JsonView {
    if has_proxy_log(i) {
        proxy_tokens(i.usage_log->0)
    } else {
        match i.digest.usage {
            Some(u) => acp_tokens(u),
            None => tokens_json(JsonView::Null, JsonView::Null, JsonView::Null, JsonView::Null),
        }
    }
}

/// The model the agent says the session runs (its model config option),
/// else the one dispatched.
pub open spec fn model_json(i: InputsView) -> JsonView {
    match i.digest.model {
        Some(m) => JsonView::Str(m),
        None => at(i.meta, "model"@),
    }
}

/// The outcome, which whoever reads the summary fills in.
pub open spec fn open_outcome() -> JsonView {
    JsonView::Object(
        put(
            put(put(Seq::empty(), "status"@, JsonView::Null), "url"@, JsonView::Null),
            "why"@,
            JsonView::Null,
        ),
    )
}

/// FIELDS with a field of META passed through as it is.
pub open spec fn pass(
    fields: Seq<(Seq<char>, JsonView)>,
    meta: JsonView,
    key: Seq<char>,
) -> Seq<(Seq<char>, JsonView)> {
    put(fields, key, at(meta, key))
}

/// The schema, and the fields META passes through as they are.
pub open spec fn meta_fields(meta: JsonView) -> Seq<(Seq<char>, JsonView)> {
    let f = put(Seq::empty(), "schema"@, JsonView::Str(SCHEMA@));
    let f = pass(f, meta, "run_id"@);
    let f = pass(f, meta, "run_attempt"@);
    let f = pass(f, meta, "run_url"@);
    let f = pass(f, meta, "item"@);
    let f = pass(f, meta, "repo"@);
    let f = pass(f, meta, "base"@);
    let f = pass(f, meta, "workflow"@);
    let f = pass(f, meta, "agent"@);
    let f = pass(f, meta, "cores"@);
    let f = pass(f, meta, "started_at"@);
    let f = pass(f, meta, "finished_at"@);
    let f = pass(f, meta, "duration_s"@);
    let f = pass(f, meta, "aic_budget"@);
    let f = pass(f, meta, "aic_pricing"@);
    let f = pass(f, meta, "files"@);
    let f = pass(f, meta, "egress_denied"@);
    pass(f, meta, "redactions"@)
}

/// What the run itself came to, after META.
pub open spec fn run_fields(i: InputsView) -> Seq<(Seq<char>, JsonView)> {
    let calls = i.digest.calls;
    let result = result_in(i);
    let f = meta_fields(i.meta);
    let f = put(f, "model"@, model_json(i));
    let f = put(f, "result"@, JsonView::Str(outcome_text(result)));
    let f = put(f, "turns"@, turns_json(i));
    let f = put(f, "tokens"@, usage_json(i));
    let f = put(f, "aic"@, i.aic);
    let f = put(f, "tools"@, JsonView::Object(tool_fields(tools_of(calls))));
    let f = put(f, "slowest"@, JsonView::Array(slowest_of(calls)));
    let f = put(f, "failures"@, JsonView::Array(failures_of(calls, result, message_in(i))));
    put(f, "tests"@, JsonView::Array(tests_of(items_of(at(i.outcome, "tests"@)))))
}

/// summary.json.
pub open spec fn summary_json(i: InputsView) -> JsonView {
    let f = put(run_fields(i), "outcome"@, open_outcome());
    // Additions of the ACP harness (the schema allows new fields).
    let f = put(f, "acp_protocol"@, opt_unsigned_json(i.digest.protocol_version));
    let f = put(f, "agent_version"@, opt_json(i.digest.agent));
    let f = put(f, "stop_reason"@, opt_json(i.digest.stop_reason));
    JsonView::Object(
        put(f, "permissions"@, permissions_json(i.digest.allowed, i.digest.denied)),
    )
}

fn pass_field(fields: Fields, meta: &Json, key: &str) -> (r: Fields)
    ensures
        r@ == pass(fields@, meta@, key@),
{
    fields.with(key, meta.at(key).copy())
}

fn pass_meta(meta: &Json) -> (r: Fields)
    ensures
        r@ == meta_fields(meta@),
{
    let f = Fields::new().with("schema", Json::text(SCHEMA));
    let f = pass_field(f, meta, "run_id");
    let f = pass_field(f, meta, "run_attempt");
    let f = pass_field(f, meta, "run_url");
    let f = pass_field(f, meta, "item");
    let f = pass_field(f, meta, "repo");
    let f = pass_field(f, meta, "base");
    let f = pass_field(f, meta, "workflow");
    let f = pass_field(f, meta, "agent");
    let f = pass_field(f, meta, "cores");
    let f = pass_field(f, meta, "started_at");
    let f = pass_field(f, meta, "finished_at");
    let f = pass_field(f, meta, "duration_s");
    let f = pass_field(f, meta, "aic_budget");
    let f = pass_field(f, meta, "aic_pricing");
    let f = pass_field(f, meta, "files");
    let f = pass_field(f, meta, "egress_denied");
    pass_field(f, meta, "redactions")
}

fn result_of(i: &Inputs) -> (r: Outcome)
    ensures
        r == result_in(i@),
{
    match i.result {
        Some(r) => r.result,
        None => match i.meta.at("exit_code").as_i64() {
            Some(n) => if n == EXIT_TIMEOUT as i64 {
                Outcome::Timeout
            } else {
                Outcome::Failure
            },
            None => Outcome::Failure,
        },
    }
}

/// The turns and the tokens of a run that D follows.
fn usage(i: &Inputs, d: &Digest) -> (r: (Json, Json))
    requires
        d@ == i@.digest,
        summable(i@),
    ensures
        r.0@ == turns_json(i@),
        r.1@ == usage_json(i@),
{
    if let Some(log) = i.usage_log {
        if log.len() > 0 {
            let (turns, t) = proxy_usage(log);
            return (Json::unsigned(turns), t);
        }
    }
    match &d.usage {
        Some(u) => (Json::Null, acp_usage(u)),
        None => (Json::Null, tokens(Json::Null, Json::Null, Json::Null, Json::Null)),
    }
}

/// Whether a summary can be made: every record has its seconds, and the sums
/// are numbers that it can hold.
pub fn can_summarize(i: &Inputs) -> (r: bool)
    ensures
        r == (i.records@.len() == i.elapsed@.len() && summable(i@)),
{
    if i.records.len() != i.elapsed.len() {
        return false;
    }
    let d = replay(i.records, i.elapsed);
    if count_tools(&d.calls).is_none() {
        return false;
    }
    match i.usage_log {
        Some(log) => sum_tokens(log, "input_tokens").is_some() && sum_tokens(
            log,
            "output_tokens",
        ).is_some() && sum_tokens(log, "cache_read_input_tokens").is_some() && sum_tokens(
            log,
            "cache_creation_input_tokens",
        ).is_some(),
        None => true,
    }
}

/// summary.json of a recorded run.
pub fn summarize(i: &Inputs) -> (r: Json)
    requires
        i.records@.len() == i.elapsed@.len(),
        summable(i@),
    ensures
        r@ == summary_json(i@),
        is_ranking(i@.digest.calls, i@.digest.calls.len() as int, ranking(i@.digest.calls)),
{
    let d = replay(i.records, i.elapsed);
    let result = result_of(i);
    let message: Option<&String> = match i.result {
        Some(r) => r.message.as_ref(),
        None => None,
    };
    let (turns, tokens) = usage(i, &d);
    // The model the agent says the session runs (its model config option),
    // else the one dispatched.
    let model = match &d.model {
        Some(m) => Json::text(m.as_str()),
        None => i.meta.at("model").copy(),
    };
    let open = Fields::new().with("status", Json::Null).with("url", Json::Null).with(
        "why",
        Json::Null,
    );
    let f = pass_meta(i.meta);
    let f = f.with("model", model);
    let f = f.with("result", Json::text(result.as_str()));
    let f = f.with("turns", turns);
    let f = f.with("tokens", tokens);
    let f = f.with("aic", i.aic.copy());
    let f = f.with("tools", tools_json(&d.calls));
    let f = f.with("slowest", Json::Array(slowest(&d.calls)));
    let f = f.with("failures", Json::Array(failures(&d.calls, result, message)));
    let f = f.with("tests", Json::Array(tests(i.outcome)));
    let f = f.with("outcome", Json::Object(open));
    let f = f.with("acp_protocol", Json::opt_unsigned(d.protocol_version));
    let f = f.with("agent_version", Json::opt_text(&d.agent));
    let f = f.with("stop_reason", Json::opt_text(&d.stop_reason));
    let f = f.with("permissions", permissions(d.allowed, &d.denied));
    Json::Object(f)
}

// ---- What a summary holds ----------------------------------------------

/// The fields META passes through.
pub open spec fn is_meta_field(key: Seq<char>) -> bool {
    ||| key == "run_id"@
    ||| key == "run_attempt"@
    ||| key == "run_url"@
    ||| key == "item"@
    ||| key == "repo"@
    ||| key == "base"@
    ||| key == "workflow"@
    ||| key == "agent"@
    ||| key == "cores"@
    ||| key == "started_at"@
    ||| key == "finished_at"@
    ||| key == "duration_s"@
    ||| key == "aic_budget"@
    ||| key == "aic_pricing"@
    ||| key == "files"@
    ||| key == "egress_denied"@
    ||| key == "redactions"@
}

/// The fields that the run itself fills in.
pub open spec fn is_run_field(key: Seq<char>) -> bool {
    ||| key == "model"@
    ||| key == "result"@
    ||| key == "turns"@
    ||| key == "tokens"@
    ||| key == "aic"@
    ||| key == "tools"@
    ||| key == "slowest"@
    ||| key == "failures"@
    ||| key == "tests"@
    ||| key == "outcome"@
    ||| key == "acp_protocol"@
    ||| key == "agent_version"@
    ||| key == "stop_reason"@
    ||| key == "permissions"@
}

/// The names of the fields that the run itself fills in, told apart by their
/// lengths and their first two letters.
proof fn lemma_run_field_names()
    ensures
        "model"@.len() == 5 && "model"@[0] == 'm' && "model"@[1] == 'o',
        "result"@.len() == 6 && "result"@[0] == 'r' && "result"@[1] == 'e',
        "turns"@.len() == 5 && "turns"@[0] == 't' && "turns"@[1] == 'u',
        "tokens"@.len() == 6 && "tokens"@[0] == 't' && "tokens"@[1] == 'o',
        "aic"@.len() == 3 && "aic"@[0] == 'a' && "aic"@[1] == 'i',
        "tools"@.len() == 5 && "tools"@[0] == 't' && "tools"@[1] == 'o',
        "slowest"@.len() == 7 && "slowest"@[0] == 's' && "slowest"@[1] == 'l',
        "failures"@.len() == 8 && "failures"@[0] == 'f' && "failures"@[1] == 'a',
        "tests"@.len() == 5 && "tests"@[0] == 't' && "tests"@[1] == 'e',
        "outcome"@.len() == 7 && "outcome"@[0] == 'o' && "outcome"@[1] == 'u',
        "acp_protocol"@.len() == 12 && "acp_protocol"@[0] == 'a' && "acp_protocol"@[1] == 'c',
        "agent_version"@.len() == 13 && "agent_version"@[0] == 'a' && "agent_version"@[1] == 'g',
        "stop_reason"@.len() == 11 && "stop_reason"@[0] == 's' && "stop_reason"@[1] == 't',
        "permissions"@.len() == 11 && "permissions"@[0] == 'p' && "permissions"@[1] == 'e',
        "schema"@.len() == 6 && "schema"@[0] == 's' && "schema"@[1] == 'c',
{
    reveal_strlit("model");
    reveal_strlit("result");
    reveal_strlit("turns");
    reveal_strlit("tokens");
    reveal_strlit("aic");
    reveal_strlit("tools");
    reveal_strlit("slowest");
    reveal_strlit("failures");
    reveal_strlit("tests");
    reveal_strlit("outcome");
    reveal_strlit("acp_protocol");
    reveal_strlit("agent_version");
    reveal_strlit("stop_reason");
    reveal_strlit("permissions");
    reveal_strlit("schema");
}

/// No field that META passes through is one that the run fills in, or the
/// schema.
proof fn lemma_field_names_differ(key: Seq<char>)
    requires
        is_meta_field(key),
    ensures
        !is_run_field(key),
        key != "schema"@,
{
    lemma_run_field_names();
    reveal_strlit("run_id");
    assert("run_id"@.len() == 6 && "run_id"@[0] == 'r' && "run_id"@[1] == 'u');
    reveal_strlit("run_attempt");
    assert("run_attempt"@.len() == 11 && "run_attempt"@[0] == 'r' && "run_attempt"@[1] == 'u');
    reveal_strlit("run_url");
    assert("run_url"@.len() == 7 && "run_url"@[0] == 'r' && "run_url"@[1] == 'u');
    reveal_strlit("item");
    assert("item"@.len() == 4 && "item"@[0] == 'i' && "item"@[1] == 't');
    reveal_strlit("repo");
    assert("repo"@.len() == 4 && "repo"@[0] == 'r' && "repo"@[1] == 'e');
    reveal_strlit("base");
    assert("base"@.len() == 4 && "base"@[0] == 'b' && "base"@[1] == 'a');
    reveal_strlit("workflow");
    assert("workflow"@.len() == 8 && "workflow"@[0] == 'w' && "workflow"@[1] == 'o');
    reveal_strlit("agent");
    assert("agent"@.len() == 5 && "agent"@[0] == 'a' && "agent"@[1] == 'g');
    reveal_strlit("cores");
    assert("cores"@.len() == 5 && "cores"@[0] == 'c' && "cores"@[1] == 'o');
    reveal_strlit("started_at");
    assert("started_at"@.len() == 10 && "started_at"@[0] == 's' && "started_at"@[1] == 't');
    reveal_strlit("finished_at");
    assert("finished_at"@.len() == 11 && "finished_at"@[0] == 'f' && "finished_at"@[1] == 'i');
    reveal_strlit("duration_s");
    assert("duration_s"@.len() == 10 && "duration_s"@[0] == 'd' && "duration_s"@[1] == 'u');
    reveal_strlit("aic_budget");
    assert("aic_budget"@.len() == 10 && "aic_budget"@[0] == 'a' && "aic_budget"@[1] == 'i');
    reveal_strlit("aic_pricing");
    assert("aic_pricing"@.len() == 11 && "aic_pricing"@[0] == 'a' && "aic_pricing"@[1] == 'i');
    reveal_strlit("files");
    assert("files"@.len() == 5 && "files"@[0] == 'f' && "files"@[1] == 'i');
    reveal_strlit("egress_denied");
    assert("egress_denied"@.len() == 13 && "egress_denied"@[0] == 'e' && "egress_denied"@[1] == 'g');
    reveal_strlit("redactions");
    assert("redactions"@.len() == 10 && "redactions"@[0] == 'r' && "redactions"@[1] == 'e');
}

proof fn lemma_run_fields(i: InputsView, wanted: Seq<char>)
    requires
        !is_run_field(wanted),
    ensures
        at(summary_json(i), wanted) == at(JsonView::Object(meta_fields(i.meta)), wanted),
{
    broadcast use lemma_at_put;

}

proof fn lemma_meta_fields(meta: JsonView, wanted: Seq<char>)
    ensures
        at(JsonView::Object(meta_fields(meta)), wanted) == if is_meta_field(wanted) {
            at(meta, wanted)
        } else if wanted == "schema"@ {
            JsonView::Str(SCHEMA@)
        } else {
            JsonView::Null
        },
{
    broadcast use lemma_at_put;

}

/// Whatever else a run came to, the fields that META passes through are in
/// its summary as they are.
pub proof fn law_meta_is_passed_through(i: InputsView, key: Seq<char>)
    requires
        is_meta_field(key),
    ensures
        at(summary_json(i), key) == at(i.meta, key),
{
    lemma_field_names_differ(key);
    lemma_run_fields(i, key);
    lemma_meta_fields(i.meta, key);
}

/// A summary names its schema.
pub proof fn law_summary_names_its_schema(i: InputsView)
    ensures
        at(summary_json(i), "schema"@) == JsonView::Str(SCHEMA@),
{
    if is_meta_field("schema"@) {
        lemma_field_names_differ("schema"@);
    }
    lemma_run_field_names();
    lemma_run_fields(i, "schema"@);
    lemma_meta_fields(i.meta, "schema"@);
}

/// A summary says how the run ended, what it took and what failed.
pub proof fn law_summary_says_what_happened(i: InputsView)
    ensures
        at(summary_json(i), "model"@) == model_json(i),
        at(summary_json(i), "result"@) == JsonView::Str(outcome_text(result_in(i))),
        at(summary_json(i), "turns"@) == turns_json(i),
        at(summary_json(i), "tokens"@) == usage_json(i),
        at(summary_json(i), "aic"@) == i.aic,
        at(summary_json(i), "tools"@) == JsonView::Object(tool_fields(tools_of(i.digest.calls))),
        at(summary_json(i), "slowest"@) == JsonView::Array(slowest_of(i.digest.calls)),
        at(summary_json(i), "failures"@) == JsonView::Array(
            failures_of(i.digest.calls, result_in(i), message_in(i)),
        ),
        at(summary_json(i), "tests"@) == JsonView::Array(
            tests_of(items_of(at(i.outcome, "tests"@))),
        ),
        at(summary_json(i), "outcome"@) == open_outcome(),
        at(summary_json(i), "acp_protocol"@) == opt_unsigned_json(i.digest.protocol_version),
        at(summary_json(i), "agent_version"@) == opt_json(i.digest.agent),
        at(summary_json(i), "stop_reason"@) == opt_json(i.digest.stop_reason),
        at(summary_json(i), "permissions"@) == permissions_json(
            i.digest.allowed,
            i.digest.denied,
        ),
{
    broadcast use lemma_at_put;

    lemma_run_field_names();
}

// ---- What a summary says -----------------------------------------------

/// The names of the fields within the fields of a summary are told apart.
proof fn lemma_inner_names()
    ensures
        "input"@.len() == 5 && "output"@.len() == 6,
        "cache_read"@.len() == 10 && "cache_write"@.len() == 11,
        "calls"@.len() == 5 && "errors"@.len() == 6 && "duration_s"@.len() == 10,
        "tool"@.len() == 4 && "tool"@[0] == 't',
        "rule"@.len() == 4 && "rule"@[0] == 'r',
        "summary"@.len() == 7 && "kind"@.len() == 4 && "message"@.len() == 7,
        "command"@.len() == 7 && "exit_code"@.len() == 9,
        "allowed"@.len() == 7 && "denied"@.len() == 6,
        "status"@.len() == 6 && "url"@.len() == 3 && "url"@[0] == 'u',
        "why"@.len() == 3 && "why"@[0] == 'w',
{
    reveal_strlit("input");
    reveal_strlit("output");
    reveal_strlit("cache_read");
    reveal_strlit("cache_write");
    reveal_strlit("calls");
    reveal_strlit("errors");
    reveal_strlit("duration_s");
    reveal_strlit("tool");
    reveal_strlit("rule");
    reveal_strlit("summary");
    reveal_strlit("kind");
    reveal_strlit("message");
    reveal_strlit("command");
    reveal_strlit("exit_code");
    reveal_strlit("allowed");
    reveal_strlit("denied");
    reveal_strlit("status");
    reveal_strlit("url");
    reveal_strlit("why");
}

/// Without a log of the proxy's, the tokens of a summary are those that the
/// agent reported, each count under its own name; without a report, each is
/// null. The turns are not known.
pub proof fn law_tokens_as_the_agent_reports(i: InputsView, usage: JsonView)
    requires
        i.usage_log is None || i.usage_log->0.len() == 0,
    ensures
        ({
            let tokens = at(summary_json(i), "tokens"@);
            &&& at(summary_json(i), "turns"@) is Null
            &&& i.digest.usage == Some(usage) ==> {
                &&& at(tokens, "input"@) == at(usage, "inputTokens"@)
                &&& at(tokens, "output"@) == at(usage, "outputTokens"@)
                &&& at(tokens, "cache_read"@) == at(usage, "cachedReadTokens"@)
                &&& at(tokens, "cache_write"@) == at(usage, "cachedWriteTokens"@)
            }
            &&& i.digest.usage is None ==> {
                &&& at(tokens, "input"@) is Null && at(tokens, "output"@) is Null
                &&& at(tokens, "cache_read"@) is Null && at(tokens, "cache_write"@) is Null
            }
        }),
{
    broadcast use lemma_at_put;

    law_summary_says_what_happened(i);
    lemma_inner_names();
}

/// With a log of the proxy's, the tokens of a summary are the sums over its
/// requests, each of its own count, whatever the agent reported; and the
/// turns are the requests that offered tools.
pub proof fn law_tokens_as_the_proxy_counts(i: InputsView, log: Seq<JsonView>)
    requires
        i.usage_log == Some(log),
        log.len() > 0,
        log.len() <= u64::MAX,
        tokens_fit(log),
    ensures
        ({
            let tokens = at(summary_json(i), "tokens"@);
            &&& u64_of(at(tokens, "input"@)) == Some(token_sum(log, "input_tokens"@) as u64)
            &&& u64_of(at(tokens, "output"@)) == Some(token_sum(log, "output_tokens"@) as u64)
            &&& u64_of(at(tokens, "cache_read"@)) == Some(
                token_sum(log, "cache_read_input_tokens"@) as u64,
            )
            &&& u64_of(at(tokens, "cache_write"@)) == Some(
                token_sum(log, "cache_creation_input_tokens"@) as u64,
            )
            &&& u64_of(at(summary_json(i), "turns"@)) == Some(turns_in(log) as u64)
        }),
{
    broadcast use lemma_at_put;

    law_summary_says_what_happened(i);
    lemma_inner_names();
}

/// A count is summed up request by request; a request without it adds
/// nothing. A turn is a request that did not go without tools.
pub proof fn law_requests_add_up(
    a: Seq<JsonView>,
    b: Seq<JsonView>,
    request: JsonView,
    key: Seq<char>,
)
    ensures
        token_sum(a + b, key) == token_sum(a, key) + token_sum(b, key),
        turns_in(a + b) == turns_in(a) + turns_in(b),
        u64_of(at(request, key)) is Some ==> token_sum(seq![request], key) == u64_of(
            at(request, key),
        )->0,
        u64_of(at(request, key)) is None ==> token_sum(seq![request], key) == 0,
        at(request, "tools"@) == JsonView::Bool(false) ==> turns_in(seq![request]) == 0,
        at(request, "tools"@) != JsonView::Bool(false) ==> turns_in(seq![request]) == 1,
        token_sum(Seq::empty(), key) == 0 && turns_in(Seq::empty()) == 0,
    decreases b.len(),
{
    reveal_with_fuel(token_sum, 2);
    reveal_with_fuel(turns_in, 2);
    assert(seq![request].drop_last() =~= Seq::<JsonView>::empty());
    if b.len() == 0 {
        assert(a + b =~= a);
    } else {
        law_requests_add_up(a, b.drop_last(), request, key);
        assert((a + b).drop_last() =~= a + b.drop_last());
    }
}

/// How the run ended is what the harness wrote; where it was killed before
/// it wrote anything, the run timed out if the supervisor says so by the
/// exit status 124, and failed else.
pub proof fn law_results_are_the_harness_s(i: InputsView)
    ensures
        ({
            let result = at(summary_json(i), "result"@);
            let status = i64_of(at(i.meta, "exit_code"@));
            &&& i.result is Some ==> result == JsonView::Str(outcome_text(i.result->0.result))
            &&& i.result is None && status == Some(124i64) ==> result == JsonView::Str("timeout"@)
            &&& i.result is None && status != Some(124i64) ==> result == JsonView::Str("failure"@)
        }),
{
    law_summary_says_what_happened(i);
}

/// A summary says which model the session ran, else the one that was
/// dispatched; what the session cost; and what the agent said of itself and
/// of its end. The outcome is left open.
pub proof fn law_summary_says_who_ran(i: InputsView)
    ensures
        ({
            let s = summary_json(i);
            let d = i.digest;
            &&& d.model is Some ==> at(s, "model"@) == JsonView::Str(d.model->0)
            &&& d.model is None ==> at(s, "model"@) == at(i.meta, "model"@)
            &&& at(s, "aic"@) == i.aic
            &&& d.protocol_version is Some ==> u64_of(at(s, "acp_protocol"@)) == d.protocol_version
            &&& d.protocol_version is None ==> at(s, "acp_protocol"@) is Null
            &&& d.agent is Some ==> at(s, "agent_version"@) == JsonView::Str(d.agent->0)
            &&& d.agent is None ==> at(s, "agent_version"@) is Null
            &&& d.stop_reason is Some ==> at(s, "stop_reason"@) == JsonView::Str(d.stop_reason->0)
            &&& d.stop_reason is None ==> at(s, "stop_reason"@) is Null
            &&& at(s, "schema"@) == JsonView::Str("agent-run-summary/v1"@)
            &&& has_field(at(s, "outcome"@), "status"@) && at(at(s, "outcome"@), "status"@) is Null
            &&& has_field(at(s, "outcome"@), "url"@) && at(at(s, "outcome"@), "url"@) is Null
            &&& has_field(at(s, "outcome"@), "why"@) && at(at(s, "outcome"@), "why"@) is Null
        }),
{
    law_summary_says_what_happened(i);
    law_summary_names_its_schema(i);
    lemma_open_outcome();
}

proof fn lemma_open_outcome()
    ensures
        has_field(open_outcome(), "status"@) && at(open_outcome(), "status"@) is Null,
        has_field(open_outcome(), "url"@) && at(open_outcome(), "url"@) is Null,
        has_field(open_outcome(), "why"@) && at(open_outcome(), "why"@) is Null,
{
    lemma_inner_names();
    let a = seq![("status"@, JsonView::Null)];
    let b = a.push(("url"@, JsonView::Null));
    let c = b.push(("why"@, JsonView::Null));
    crate::json::lemma_field_at_is(Seq::empty(), "status"@, 0);
    assert(put(Seq::empty(), "status"@, JsonView::Null) =~= a);
    crate::json::lemma_field_at_is(a, "url"@, 1);
    crate::json::lemma_field_at_is(b, "why"@, 2);
    assert(open_outcome() == JsonView::Object(c));
    crate::json::law_fields_are_found(c, "status"@, 0, JsonView::Null);
    crate::json::law_fields_are_found(c, "url"@, 1, JsonView::Null);
    crate::json::law_fields_are_found(c, "why"@, 2, JsonView::Null);
}

/// A call counts for the tool by whose name it goes, and for no other: as
/// one call, as one error where it failed, and for the seconds that it took,
/// where it ended.
pub proof fn law_calls_count_for_their_tool(
    calls: Seq<CallView>,
    call: CallView,
    name: Seq<char>,
)
    ensures
        ({
            let before = counted(calls, name);
            let after = counted(calls.push(call), name);
            let none = CountView { calls: 0, errors: 0, duration_s: 0 };
            let was = if before is Some {
                before->0
            } else {
                none
            };
            &&& name != display_name_of(call) ==> after == before
            &&& name == display_name_of(call) ==> {
                &&& after is Some
                &&& after->0.calls == was.calls + 1
                &&& call.error == Some(true) ==> after->0.errors == was.errors + 1
                &&& call.error != Some(true) ==> after->0.errors == was.errors
                &&& call.duration_s is Some ==> after->0.duration_s == was.duration_s
                    + call.duration_s->0
                &&& call.duration_s is None ==> after->0.duration_s == was.duration_s
            }
            &&& counted(Seq::empty(), name) is None
        }),
{
    assert(calls.push(call).drop_last() =~= calls);
}

proof fn lemma_tool_fields(tools: Seq<(Seq<char>, CountView)>, name: Seq<char>)
    requires
        keys_ascend(tools),
    ensures
        at(JsonView::Object(tool_fields(tools)), name) == match value_of(tools, name) {
            Some(c) => count_json(c),
            None => JsonView::Null,
        },
    decreases tools.len(),
{
    broadcast use lemma_at_put;

    if tools.len() == 0 {
        crate::json::law_fields_are_found(Seq::empty(), name, 0, JsonView::Null);
    } else {
        let before = tools.drop_last();
        let n = before.len() as int;
        assert forall|i: int, j: int| 0 <= i < j < before.len() implies crate::text::text_lt(
            #[trigger] before[i].0,
            #[trigger] before[j].0,
        ) by {
            assert(crate::text::text_lt(tools[i].0, tools[j].0));
        }
        lemma_tool_fields(before, name);
        if tools.last().0 == name {
            assert forall|k: int| 0 <= k < n implies #[trigger] tools[k].0 != name by {
                assert(crate::text::text_lt(tools[k].0, tools[n].0));
                crate::text::lemma_text_strict(name);
            }
            law_first_entry_counts(tools, name, n);
        } else if exists|k: int| 0 <= k < n && (#[trigger] tools[k]).0 == name {
            let k = choose|k: int| 0 <= k < n && (#[trigger] tools[k]).0 == name;
            assert forall|m: int| 0 <= m < k implies #[trigger] tools[m].0 != name by {
                assert(crate::text::text_lt(tools[m].0, tools[k].0));
                crate::text::lemma_text_strict(name);
            }
            law_first_entry_counts(tools, name, k);
            assert(before[k] == tools[k]);
            assert forall|m: int| 0 <= m < k implies #[trigger] before[m].0 != name by {
                assert(tools[m].0 != name);
            }
            law_first_entry_counts(before, name, k);
        } else {
            law_first_entry_counts(tools, name, tools.len() as int);
            assert forall|m: int| 0 <= m < n implies #[trigger] before[m].0 != name by {
                assert(tools[m].0 != name);
            }
            law_first_entry_counts(before, name, n);
        }
    }
}

/// A summary has, under the name of each tool that was called, how often it
/// was, how many of the calls failed and how many seconds they took; a tool
/// that was not called is not there.
pub proof fn law_summary_counts_the_tools(i: InputsView, name: Seq<char>)
    ensures
        ({
            let tool = at(at(summary_json(i), "tools"@), name);
            let count = counted(i.digest.calls, name);
            &&& count is None ==> tool is Null
            &&& count is Some ==> {
                &&& u64_of(at(tool, "calls"@)) == Some(count->0.calls as u64)
                &&& u64_of(at(tool, "errors"@)) == Some(count->0.errors as u64)
                &&& u64_of(at(tool, "duration_s"@)) == Some(count->0.duration_s as u64)
            }
        }),
{
    broadcast use lemma_at_put;

    law_summary_says_what_happened(i);
    law_tools_count_every_call(i.digest.calls, name);
    lemma_tool_fields(tools_of(i.digest.calls), name);
    lemma_inner_names();
}

/// ENTRY, among the slowest calls of a summary, is CALL: its tool, what it
/// did and how long it took.
pub open spec fn is_slow_entry(entry: JsonView, call: CallView) -> bool {
    &&& call.duration_s is Some
    &&& at(entry, "tool"@) == JsonView::Str(display_name_of(call))
    &&& at(entry, "summary"@) == JsonView::Str(call.summary)
    &&& u64_of(at(entry, "duration_s"@)) == call.duration_s
}

/// A summary lists the slowest calls that ended, ten at most, the slowest
/// first: each entry is such a call, those after it took no longer, and no
/// call that is left out took longer than one that is listed.
pub proof fn law_summary_lists_the_slowest(i: InputsView, k: int, m: int, c: int)
    requires
        is_ranking(i.digest.calls, i.digest.calls.len() as int, ranking(i.digest.calls)),
        0 <= k < items_of(at(summary_json(i), "slowest"@)).len(),
    ensures
        ({
            let calls = i.digest.calls;
            let list = items_of(at(summary_json(i), "slowest"@));
            let secs = |entry: JsonView| u64_of(at(entry, "duration_s"@))->0;
            &&& list.len() <= 10
            &&& exists|j: int|
                0 <= j < calls.len() && is_slow_entry(list[k], #[trigger] calls[j])
            &&& k < m < list.len() ==> secs(list[k]) >= secs(list[m])
            &&& 0 <= c < calls.len() && calls[c].duration_s is Some ==> (exists|j: int|
                0 <= j < list.len() && is_slow_entry(#[trigger] list[j], calls[c])) || (list.len()
                == 10 && secs(list[k]) >= calls[c].duration_s->0)
        }),
{
    broadcast use lemma_at_put;

    law_summary_says_what_happened(i);
    lemma_inner_names();
    let calls = i.digest.calls;
    let list = items_of(at(summary_json(i), "slowest"@));
    let order = ranking(calls);
    assert(list == slowest_of(calls));
    assert forall|n: int| 0 <= n < list.len() implies is_slow_entry(
        #[trigger] list[n],
        calls[order[n]],
    ) by {
        assert(list[n] == slow_json(calls[order[n]]));
        assert(calls[order[n]].duration_s is Some);
    }
    assert(is_slow_entry(list[k], calls[order[k]]));
    if k < m < list.len() {
        assert(is_slow_entry(list[m], calls[order[m]]));
        assert(slower(calls, order[k], order[m]));
    }
    if 0 <= c < calls.len() && calls[c].duration_s is Some {
        assert(order.contains(c));
        let n = choose|n: int| 0 <= n < order.len() && order[n] == c;
        if n < list.len() {
            assert(is_slow_entry(list[n], calls[c]));
        } else {
            assert(slower(calls, order[k], order[n]));
        }
    }
}

/// Failed calls are listed in their order, each as a tool error with the
/// tool's name and what went wrong; the other calls are not.
pub proof fn law_failed_calls_are_listed(
    a: Seq<CallView>,
    b: Seq<CallView>,
    call: CallView,
    message: Seq<char>,
)
    requires
        call.message is Some ==> call.message == Some(message),
        call.message is None ==> message.len() == 0,
    ensures
        tool_failures(a + b) == tool_failures(a) + tool_failures(b),
        tool_failures(Seq::empty()).len() == 0,
        call.error != Some(true) ==> tool_failures(seq![call]).len() == 0,
        call.error == Some(true) ==> {
            let list = tool_failures(seq![call]);
            &&& list.len() == 1
            &&& at(list[0], "kind"@) == JsonView::Str("tool_error"@)
            &&& at(list[0], "message"@) == JsonView::Str(
                cut_text(display_name_of(call) + ": "@ + message),
            )
        },
    decreases b.len(),
{
    broadcast use lemma_at_put;

    lemma_inner_names();
    reveal_with_fuel(tool_failures, 2);
    reveal_strlit("");
    assert(seq![call].drop_last() =~= Seq::<CallView>::empty());
    if call.message is None {
        assert(message =~= ""@);
    }
    if b.len() == 0 {
        assert(a + b =~= a);
        assert(tool_failures(a) + tool_failures(b) =~= tool_failures(a));
    } else {
        law_failed_calls_are_listed(a, b.drop_last(), call, message);
        assert((a + b).drop_last() =~= a + b.drop_last());
        assert(tool_failures(a + b) =~= tool_failures(a) + tool_failures(b));
    }
}

/// A summary lists the failed calls and, after them, why the run did not
/// succeed: what the harness said of it, else what the outcome says. A run
/// that succeeded adds nothing.
pub proof fn law_summary_lists_the_failures(i: InputsView, why: Seq<char>)
    requires
        i.result is Some && i.result->0.message is Some ==> i.result->0.message == Some(why),
    ensures
        ({
            let list = items_of(at(summary_json(i), "failures"@));
            let calls = tool_failures(i.digest.calls);
            let status = i64_of(at(i.meta, "exit_code"@));
            let outcome = if i.result is Some {
                i.result->0.result
            } else if status == Some(124i64) {
                Outcome::Timeout
            } else {
                Outcome::Failure
            };
            let told = i.result is Some && i.result->0.message is Some;
            let last = list.last();
            &&& outcome == Outcome::Success ==> list == calls
            &&& outcome != Outcome::Success ==> {
                &&& list.len() == calls.len() + 1
                &&& list.drop_last() == calls
                &&& told ==> at(last, "message"@) == JsonView::Str(cut_text(why))
                &&& outcome == Outcome::Timeout ==> at(last, "kind"@) == JsonView::Str("timeout"@)
                    && (!told ==> at(last, "message"@) == JsonView::Str(
                    cut_text("the agent hit the timeout"@),
                ))
                &&& outcome == Outcome::Budget ==> at(last, "kind"@) == JsonView::Str("budget"@)
                    && (!told ==> at(last, "message"@) == JsonView::Str(
                    cut_text("the agent went over budget"@),
                ))
                &&& outcome == Outcome::Failure || outcome == Outcome::Cancelled ==> at(
                    last,
                    "kind"@,
                ) == JsonView::Str("agent_exit"@) && (!told ==> at(last, "message"@)
                    == JsonView::Str(cut_text("the agent failed"@)))
            }
        }),
{
    broadcast use lemma_at_put;

    law_summary_says_what_happened(i);
    lemma_inner_names();
    let list = items_of(at(summary_json(i), "failures"@));
    if list.len() == tool_failures(i.digest.calls).len() + 1 {
        assert(list.drop_last() =~= tool_failures(i.digest.calls));
    }
}

/// A summary lists the tests that the agent says it ran, in their order: of
/// each its command, its exit status and its seconds. What is no test is
/// left out.
pub proof fn law_summary_lists_the_tests(
    i: InputsView,
    a: Seq<JsonView>,
    b: Seq<JsonView>,
    t: JsonView,
)
    ensures
        at(summary_json(i), "tests"@) == JsonView::Array(
            tests_of(items_of(at(i.outcome, "tests"@))),
        ),
        tests_of(a + b) == tests_of(a) + tests_of(b),
        tests_of(Seq::empty()).len() == 0,
        !(t is Object) ==> tests_of(seq![t]).len() == 0,
        t is Object ==> {
            let list = tests_of(seq![t]);
            let command = at(t, "command"@);
            &&& list.len() == 1
            &&& command is Str ==> at(list[0], "command"@) == JsonView::Str(
                cut_text(command->Str_0),
            )
            &&& !(command is Str) ==> at(list[0], "command"@) == JsonView::Str(
                cut_text(json_text(command)),
            )
            &&& at(list[0], "exit_code"@) == at(t, "exit_code"@)
            &&& at(list[0], "duration_s"@) == at(t, "duration_s"@)
        },
{
    law_summary_says_what_happened(i);
    lemma_tests_go_on(a, b);
    lemma_one_test(t);
}

proof fn lemma_tests_go_on(a: Seq<JsonView>, b: Seq<JsonView>)
    ensures
        tests_of(a + b) == tests_of(a) + tests_of(b),
        tests_of(Seq::empty()).len() == 0,
    decreases b.len(),
{
    if b.len() == 0 {
        assert(a + b =~= a);
        assert(tests_of(a) + tests_of(b) =~= tests_of(a));
    } else {
        lemma_tests_go_on(a, b.drop_last());
        assert((a + b).drop_last() =~= a + b.drop_last());
        assert((a + b).last() == b.last());
        assert(tests_of(a + b) =~= tests_of(a) + tests_of(b));
    }
}

proof fn lemma_one_test(t: JsonView)
    ensures
        !(t is Object) ==> tests_of(seq![t]).len() == 0,
        t is Object ==> {
            let list = tests_of(seq![t]);
            let command = at(t, "command"@);
            &&& list.len() == 1
            &&& command is Str ==> at(list[0], "command"@) == JsonView::Str(
                cut_text(command->Str_0),
            )
            &&& !(command is Str) ==> at(list[0], "command"@) == JsonView::Str(
                cut_text(json_text(command)),
            )
            &&& at(list[0], "exit_code"@) == at(t, "exit_code"@)
            &&& at(list[0], "duration_s"@) == at(t, "duration_s"@)
        },
{
    broadcast use lemma_at_put;

    lemma_inner_names();
    reveal_with_fuel(tests_of, 2);
    assert(seq![t].drop_last() =~= Seq::<JsonView>::empty());
}

/// A summary has how many permissions were granted, and each that was not:
/// the tool, what the call would have done, and the rule that denied it.
pub proof fn law_summary_lists_the_denials(i: InputsView, k: int)
    ensures
        ({
            let p = at(summary_json(i), "permissions"@);
            let list = items_of(at(p, "denied"@));
            let denied = i.digest.denied;
            &&& u64_of(at(p, "allowed"@)) == Some(i.digest.allowed)
            &&& list.len() == denied.len()
            &&& 0 <= k < denied.len() ==> {
                &&& at(list[k], "tool"@) == JsonView::Str(denied[k].tool)
                &&& at(list[k], "summary"@) == JsonView::Str(denied[k].summary)
                &&& denied[k].rule is Some ==> at(list[k], "rule"@) == JsonView::Str(
                    denied[k].rule->0,
                )
                &&& denied[k].rule is None ==> at(list[k], "rule"@) is Null
            }
        }),
{
    broadcast use lemma_at_put;

    law_summary_says_what_happened(i);
    lemma_inner_names();
}

/// The lines of a JSON Lines file that are JSON are read, in their order; the
/// others are skipped.
pub proof fn law_json_lines_are_read(a: Seq<Seq<char>>, b: Seq<Seq<char>>, line: Seq<char>)
    ensures
        values_in(a + b) == values_in(a) + values_in(b),
        values_in(Seq::empty()).len() == 0,
        json_parse(line) is Some ==> values_in(seq![line]) == seq![json_parse(line)->0],
        json_parse(line) is None ==> values_in(seq![line]).len() == 0,
    decreases b.len(),
{
    reveal_with_fuel(values_in, 2);
    assert(seq![line].drop_last() =~= Seq::<Seq<char>>::empty());
    if json_parse(line) is Some {
        assert(values_in(seq![line]) =~= seq![json_parse(line)->0]);
    }
    if b.len() == 0 {
        assert(a + b =~= a);
        assert(values_in(a) + values_in(b) =~= values_in(a));
    } else {
        law_json_lines_are_read(a, b.drop_last(), line);
        assert((a + b).drop_last() =~= a + b.drop_last());
        assert(values_in(a + b) =~= values_in(a) + values_in(b));
    }
}

} // verus!
