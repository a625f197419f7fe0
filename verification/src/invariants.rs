//! What holds of every session that a digest follows, whatever the two
//! sides send.

use crate::digest::{
    call_at, call_updated, fed, flushed, id_of, lemma_call_at, model_option, new_digest,
    permission_noted, request_sent, responded, started_of, status_noted, updated, DigestView, Dir,
    Log,
};
use crate::json::{at, has_field, items_of, json_text, str_of, str_or, u64_of, JsonView};
use crate::text::{cut_text, decimal, digit_char, is_control_char, signed_decimal, MAX_TEXT};
use crate::toolcall::{display_name_of, merged, new_call, summary_of, CallView};
use vstd::prelude::*;

verus! {

// ---- Log lines ---------------------------------------------------------

/// A text without control characters: it stays on its line.
pub open spec fn is_one_line(line: Seq<char>) -> bool {
    forall|i: int| 0 <= i < line.len() ==> !is_control_char(#[trigger] line[i])
}

/// A log line: on one line, and short.
pub open spec fn is_log_line(line: Seq<char>) -> bool {
    is_one_line(line) && line.len() <= 2 * MAX_TEXT + 3
}

proof fn lemma_join_lines(a: Seq<char>, b: Seq<char>)
    ensures
        is_one_line(a) && is_one_line(b) ==> is_one_line(a + b),
{
    if is_one_line(a) && is_one_line(b) {
        assert forall|i: int| 0 <= i < (a + b).len() implies !is_control_char(
            #[trigger] (a + b)[i],
        ) by {
            if i < a.len() {
                assert((a + b)[i] == a[i]);
            } else {
                assert((a + b)[i] == b[i - a.len()]);
            }
        }
    }
}

proof fn lemma_cut_line(text: Seq<char>)
    ensures
        is_log_line(cut_text(text)),
        cut_text(text).len() <= MAX_TEXT,
{
}

proof fn lemma_decimal_line(n: nat)
    ensures
        is_one_line(decimal(n)),
    decreases n,
{
    if n >= 10 {
        lemma_decimal_line(n / 10);
    }
    assert(!is_control_char(digit_char(n % 10)));
}

proof fn lemma_decimal_length(n: nat)
    ensures
        n < 10_000 ==> decimal(n).len() <= 4,
        n < 100_000_000 ==> decimal(n).len() <= 8,
        n < 1_000_000_000_000 ==> decimal(n).len() <= 12,
        n < 10_000_000_000_000_000 ==> decimal(n).len() <= 16,
        n <= u64::MAX ==> decimal(n).len() <= 20,
{
    reveal_with_fuel(decimal, 5);
    if n >= 10_000 {
        let m = n / 10 / 10 / 10 / 10;
        assert(decimal(n).len() == decimal(m).len() + 4);
        if n <= u64::MAX {
            lemma_decimal_length_below(m);
        }
    }
}

proof fn lemma_decimal_length_below(n: nat)
    ensures
        n < 10_000 ==> decimal(n).len() <= 4,
        n < 100_000_000 ==> decimal(n).len() <= 8,
        n < 1_000_000_000_000 ==> decimal(n).len() <= 12,
        n < 10_000_000_000_000_000 ==> decimal(n).len() <= 16,
    decreases n,
{
    reveal_with_fuel(decimal, 5);
    if n >= 10_000 {
        let m = n / 10 / 10 / 10 / 10;
        assert(decimal(n).len() == decimal(m).len() + 4);
        lemma_decimal_length_below(m);
    }
}

// ---- What a message changes --------------------------------------------

/// A call that ended was summed up, and timed.
pub open spec fn is_whole(call: CallView) -> bool {
    &&& call.end is Some <==> call.duration_s is Some
    &&& call.end is Some <==> call.error is Some
    &&& call.error == Some(true) ==> call.message is Some
}

/// What is later known of a call: its id and start never change, and
/// neither does how it ended.
pub open spec fn keeps(before: CallView, after: CallView) -> bool {
    &&& after.id == before.id
    &&& after.start == before.start
    &&& before.end is Some ==> after.end == before.end && after.duration_s == before.duration_s
        && after.error == before.error && after.message == before.message && after.summary
        == before.summary
}

/// No two calls have the same id.
pub open spec fn distinct_calls(calls: Seq<CallView>) -> bool {
    forall|i: int, j: int|
        0 <= i < j < calls.len() ==> (#[trigger] calls[i]).id != (#[trigger] calls[j]).id
}

/// Every call is whole, and none is there twice.
pub open spec fn well_formed(d: DigestView) -> bool {
    &&& distinct_calls(d.calls)
    &&& forall|i: int| 0 <= i < d.calls.len() ==> is_whole(#[trigger] d.calls[i])
}

/// AFTER is a later state of the session than BEFORE.
pub open spec fn goes_on(before: DigestView, after: DigestView) -> bool {
    &&& before.calls.len() <= after.calls.len()
    &&& forall|i: int|
        0 <= i < before.calls.len() ==> keeps(before.calls[i], #[trigger] after.calls[i])
    &&& well_formed(before) ==> well_formed(after)
    &&& before.error is Some ==> after.error == before.error
}

/// AFTER is a later state of the session than BEFORE, and what was logged in
/// between are log lines.
pub open spec fn follows(before: Log, after: Log) -> bool {
    &&& before.out.len() <= after.out.len()
    &&& forall|i: int| 0 <= i < before.out.len() ==> #[trigger] after.out[i] == before.out[i]
    &&& forall|i: int|
        before.out.len() <= i < after.out.len() ==> is_log_line(#[trigger] after.out[i])
    &&& goes_on(before.d, after.d)
}

proof fn lemma_follows_on(a: Log, b: Log, c: Log)
    requires
        follows(a, b),
        follows(b, c),
    ensures
        follows(a, c),
{
    assert forall|i: int| 0 <= i < a.out.len() implies #[trigger] c.out[i] == a.out[i] by {
        assert(b.out[i] == a.out[i]);
    }
    assert forall|i: int| a.out.len() <= i < c.out.len() implies is_log_line(
        #[trigger] c.out[i],
    ) by {
        if i < b.out.len() {
            assert(c.out[i] == b.out[i]);
        }
    }
    assert forall|i: int| 0 <= i < a.d.calls.len() implies keeps(
        a.d.calls[i],
        #[trigger] c.d.calls[i],
    ) by {
        assert(keeps(a.d.calls[i], b.d.calls[i]));
        assert(keeps(b.d.calls[i], c.d.calls[i]));
    }
}

/// Only the lines changed.
proof fn lemma_follows_lines(a: Log, b: Log)
    requires
        b.d.calls == a.d.calls,
        b.d.error == a.d.error || a.d.error is None,
        b.out == a.out || (b.out.len() == a.out.len() + 1 && b.out.drop_last() == a.out
            && is_log_line(b.out.last())),
    ensures
        follows(a, b),
{
    assert forall|i: int| 0 <= i < a.out.len() implies #[trigger] b.out[i] == a.out[i] by {
        if b.out != a.out {
            assert(b.out.drop_last()[i] == b.out[i]);
        }
    }
}

proof fn lemma_push_line(out: Seq<Seq<char>>, line: Seq<char>)
    ensures
        out.push(line).drop_last() == out,
        out.push(line).last() == line,
{
    assert(out.push(line).drop_last() =~= out);
}

proof fn lemma_flushed(l: Log)
    ensures
        follows(l, flushed(l)),
        flushed(l).d.calls == l.d.calls,
        flushed(l).d.error == l.d.error,
{
    let line = cut_text("» "@ + l.d.text.line);
    lemma_cut_line("» "@ + l.d.text.line);
    lemma_push_line(l.out, line);
    lemma_follows_lines(l, flushed(l));
}

proof fn lemma_responded(l: Log, method: Seq<char>, msg: JsonView)
    ensures
        follows(l, responded(l, method, msg)),
        responded(l, method, msg).d.calls == l.d.calls,
{
    let r = responded(l, method, msg);
    assert forall|text: Seq<char>| is_log_line(#[trigger] cut_text(text)) && is_log_line(
        "⚠ "@ + cut_text(text),
    ) by {
        lemma_cut_line(text);
        reveal_strlit("⚠ ");
        lemma_join_lines("⚠ "@, cut_text(text));
    }
    lemma_flushed(l);
    let f = flushed(l);
    if has_field(msg, "error"@) {
        lemma_push_line(l.out, r.out.last());
        assert(r.out =~= l.out.push(r.out.last()));
        lemma_follows_lines(l, r);
    } else if method == "session/prompt"@ && method != "initialize"@ && method != "session/new"@
        && method != "session/set_config_option"@ {
        lemma_push_line(f.out, r.out.last());
        assert(r.out =~= f.out.push(r.out.last()));
        lemma_follows_lines(f, r);
        lemma_follows_on(l, f, r);
    } else if method == "session/new"@ && method != "initialize"@ {
        lemma_push_line(l.out, r.out.last());
        assert(r.out =~= l.out.push(r.out.last()));
        lemma_follows_lines(l, r);
    } else {
        lemma_follows_lines(l, r);
    }
}

proof fn lemma_status_noted(l: Log, i: int, ts: u64, secs: u64, update: JsonView)
    requires
        0 <= i < l.d.calls.len(),
    ensures
        follows(l, status_noted(l, i, ts, secs, update)),
        status_noted(l, i, ts, secs, update).d.calls.len() == l.d.calls.len(),
{
    let r = status_noted(l, i, ts, secs, update);
    let call = l.d.calls[i];
    let name = display_name_of(call);
    let summary = summary_of(call, l.d.cwd);
    if r.out != l.out {
        assert forall|text: Seq<char>| is_log_line(#[trigger] cut_text(text)) && cut_text(
            text,
        ).len() <= MAX_TEXT by {
            lemma_cut_line(text);
        }
        reveal_strlit("✎ ");
        reveal_strlit(" ");
        lemma_join_lines("✎ "@, name);
        lemma_join_lines("✎ "@ + name, " "@);
        lemma_join_lines("✎ "@ + name + " "@, summary);
        assert(is_log_line("✎ "@ + name + " "@ + summary));
        let first = r.out[l.out.len() as int];
        assert(is_log_line(first));
        assert forall|k: int| l.out.len() <= k < r.out.len() implies is_log_line(
            #[trigger] r.out[k],
        ) by {
            if k > l.out.len() {
                assert(k == l.out.len() + 1);
            }
        }
    }
    assert forall|k: int| 0 <= k < l.d.calls.len() implies keeps(
        l.d.calls[k],
        #[trigger] r.d.calls[k],
    ) by {}
}

proof fn lemma_call_updated(l: Log, i: int, ts: u64, secs: u64, update: JsonView)
    requires
        0 <= i < l.d.calls.len(),
    ensures
        follows(l, call_updated(l, i, ts, secs, update)),
        call_updated(l, i, ts, secs, update).d.calls.len() == l.d.calls.len(),
{
    let m = Log {
        d: DigestView { calls: l.d.calls.update(i, merged(l.d.calls[i], update)), ..l.d },
        out: l.out,
    };
    assert(follows(l, m));
    lemma_status_noted(m, i, ts, secs, update);
    lemma_follows_on(l, m, call_updated(l, i, ts, secs, update));
}

proof fn lemma_updated(l: Log, ts: u64, elapsed_s: u64, update: JsonView)
    ensures
        goes_on(l.d, updated(l, ts, elapsed_s, update).d),
        items_of(at(update, "entries"@)).len() <= u64::MAX ==> follows(
            l,
            updated(l, ts, elapsed_s, update),
        ),
        updated(l, ts, elapsed_s, update).d.calls.len() <= l.d.calls.len() + 1,
{
    let r = updated(l, ts, elapsed_s, update);
    let id = str_or(at(update, "toolCallId"@), ""@);
    let kind = str_or(at(update, "sessionUpdate"@), ""@);
    let i = call_at(l.d.calls, id);
    lemma_call_at(l.d.calls, id);
    lemma_flushed(l);
    let f = flushed(l);
    if kind == "agent_message_chunk"@ {
        lemma_follows_lines(l, r);
    } else if kind == "tool_call"@ && i >= l.d.calls.len() {
        let m = Log {
            d: DigestView { calls: f.d.calls.push(new_call(id, ts)), ..f.d },
            out: f.out,
        };
        if well_formed(f.d) {
            assert forall|a: int, b: int| 0 <= a < b < m.d.calls.len() implies (
            #[trigger] m.d.calls[a]).id != (#[trigger] m.d.calls[b]).id by {
                if b == f.d.calls.len() {
                    assert(l.d.calls[a].id != id);
                }
            }
        }
        assert(follows(f, m));
        lemma_call_updated(m, i as int, ts, 0, update);
        lemma_follows_on(f, m, r);
        lemma_follows_on(l, f, r);
    } else if (kind == "tool_call"@ || kind == "tool_call_update"@) && i < l.d.calls.len() {
        lemma_call_updated(f, i as int, ts, elapsed_s, update);
        lemma_follows_on(l, f, r);
    } else if kind == "plan"@ && kind != "tool_call"@ && kind != "tool_call_update"@ && kind
        != "usage_update"@ {
        let n = items_of(at(update, "entries"@)).len();
        let line = "plan: "@ + decimal(n) + " entries"@;
        reveal_strlit("plan: ");
        reveal_strlit(" entries");
        lemma_decimal_line(n);
        lemma_decimal_length(n);
        lemma_join_lines("plan: "@, decimal(n));
        lemma_join_lines("plan: "@ + decimal(n), " entries"@);
        lemma_push_line(f.out, line);
        if n <= u64::MAX {
            lemma_follows_lines(f, r);
            lemma_follows_on(l, f, r);
        }
    } else {
        lemma_follows_lines(f, r);
        lemma_follows_on(l, f, r);
    }
}

proof fn lemma_permission_noted(l: Log, params: JsonView, result: JsonView)
    ensures
        follows(l, permission_noted(l, params, result)),
        permission_noted(l, params, result).d.calls == l.d.calls,
{
    let r = permission_noted(l, params, result);
    if r.out != l.out {
        assert forall|text: Seq<char>| is_log_line(#[trigger] cut_text(text)) by {
            lemma_cut_line(text);
        }
        lemma_push_line(l.out, r.out.last());
        assert(r.out =~= l.out.push(r.out.last()));
    }
    lemma_follows_lines(l, r);
}

proof fn lemma_request_sent(l: Log, method: Seq<char>, msg: JsonView)
    ensures
        follows(l, request_sent(l, method, msg)),
        request_sent(l, method, msg).d.calls == l.d.calls,
{
    let r = request_sent(l, method, msg);
    let noted = if id_of(msg) is Null {
        l
    } else {
        Log {
            d: DigestView { sent: l.d.sent.insert(json_text(id_of(msg)), method), ..l.d },
            out: l.out,
        }
    };
    lemma_follows_lines(l, noted);
    if method == "session/cancel"@ && method != "session/new"@ {
        let f = flushed(noted);
        lemma_flushed(noted);
        reveal_strlit("⚠ cancelling the session");
        lemma_push_line(f.out, "⚠ cancelling the session"@);
        lemma_follows_lines(f, r);
        lemma_follows_on(noted, f, r);
        lemma_follows_on(l, noted, r);
    } else {
        lemma_follows_lines(noted, r);
        lemma_follows_on(l, noted, r);
    }
}

/// The update that a message carries, if it does.
pub open spec fn update_in(msg: JsonView) -> JsonView {
    at(at(msg, "params"@), "update"@)
}

proof fn lemma_fed(l: Log, ts: u64, elapsed_s: u64, dir: Dir, msg: JsonView)
    ensures
        goes_on(l.d, fed(l, ts, elapsed_s, dir, msg).d),
        items_of(at(update_in(msg), "entries"@)).len() <= u64::MAX ==> follows(
            l,
            fed(l, ts, elapsed_s, dir, msg),
        ),
        fed(l, ts, elapsed_s, dir, msg).d.calls.len() <= l.d.calls.len() + 1,
{
    let r = fed(l, ts, elapsed_s, dir, msg);
    let key = json_text(id_of(msg));
    lemma_follows_lines(l, l);
    match (dir, str_of(at(msg, "method"@))) {
        (Dir::Send, Some(m)) => {
            lemma_request_sent(l, m, msg);
        },
        (Dir::Recv, Some(m)) => {
            let noted = if id_of(msg) is Null {
                l
            } else {
                Log {
                    d: DigestView {
                        received: l.d.received.insert(key, (m, at(msg, "params"@))),
                        ..l.d
                    },
                    out: l.out,
                }
            };
            lemma_follows_lines(l, noted);
            lemma_updated(noted, ts, elapsed_s, update_in(msg));
            if m == "session/update"@ && items_of(at(update_in(msg), "entries"@)).len()
                <= u64::MAX {
                lemma_follows_on(l, noted, r);
            }
        },
        (Dir::Send, None) => {
            if !(id_of(msg) is Null) && l.d.received.dom().contains(key) {
                let answered = Log {
                    d: DigestView { received: l.d.received.remove(key), ..l.d },
                    out: l.out,
                };
                let (method, params) = l.d.received[key];
                lemma_follows_lines(l, answered);
                lemma_permission_noted(answered, params, at(msg, "result"@));
                if method == "session/request_permission"@ {
                    lemma_follows_on(l, answered, r);
                }
            }
        },
        (Dir::Recv, None) => {
            if !(id_of(msg) is Null) && l.d.sent.dom().contains(key) {
                let answered = Log {
                    d: DigestView { sent: l.d.sent.remove(key), ..l.d },
                    out: l.out,
                };
                lemma_follows_lines(l, answered);
                lemma_responded(answered, l.d.sent[key], msg);
                lemma_follows_on(l, answered, r);
            }
        },
    }
}

// ---- Laws of one message -----------------------------------------------

/// Whatever a message holds, what is logged of it stays on its line and is
/// short: nothing that an agent writes can start a line of the job log.
pub proof fn law_log_stays_on_its_lines(
    d: DigestView,
    ts: u64,
    elapsed_s: u64,
    dir: Dir,
    msg: JsonView,
    i: int,
)
    requires
        items_of(at(update_in(msg), "entries"@)).len() <= u64::MAX,
        0 <= i < fed(Log { d, out: Seq::empty() }, ts, elapsed_s, dir, msg).out.len(),
    ensures
        is_log_line(fed(Log { d, out: Seq::empty() }, ts, elapsed_s, dir, msg).out[i]),
{
    lemma_fed(Log { d, out: Seq::empty() }, ts, elapsed_s, dir, msg);
}

/// What is logged at the end of a session stays on its line and is short
/// too.
pub proof fn law_last_line_stays_on_its_line(d: DigestView, i: int)
    requires
        0 <= i < flushed(Log { d, out: Seq::empty() }).out.len(),
    ensures
        is_log_line(flushed(Log { d, out: Seq::empty() }).out[i]),
{
    lemma_flushed(Log { d, out: Seq::empty() });
}

/// A new session is well-formed.
pub proof fn law_new_session_is_well_formed()
    ensures
        well_formed(new_digest()),
{
}

/// A message leaves a session well-formed: every call is there once, and
/// those that ended are summed up and timed.
pub proof fn law_sessions_stay_well_formed(
    d: DigestView,
    ts: u64,
    elapsed_s: u64,
    dir: Dir,
    msg: JsonView,
)
    requires
        well_formed(d),
    ensures
        well_formed(fed(Log { d, out: Seq::empty() }, ts, elapsed_s, dir, msg).d),
{
    lemma_fed(Log { d, out: Seq::empty() }, ts, elapsed_s, dir, msg);
}

/// A call stays where it is, with its id and its start; once it has ended,
/// how it ended stays too. A message adds one call at most.
pub proof fn law_calls_are_kept(
    d: DigestView,
    ts: u64,
    elapsed_s: u64,
    dir: Dir,
    msg: JsonView,
    i: int,
)
    requires
        0 <= i < d.calls.len(),
    ensures
        ({
            let after = fed(Log { d, out: Seq::empty() }, ts, elapsed_s, dir, msg).d;
            &&& d.calls.len() <= after.calls.len() <= d.calls.len() + 1
            &&& keeps(d.calls[i], after.calls[i])
        }),
{
    let l = Log { d, out: Seq::empty() };
    lemma_fed(l, ts, elapsed_s, dir, msg);
    assert(keeps(l.d.calls[i], fed(l, ts, elapsed_s, dir, msg).d.calls[i]));
}

/// The error of a session is the first one.
pub proof fn law_first_error_stays(
    d: DigestView,
    ts: u64,
    elapsed_s: u64,
    dir: Dir,
    msg: JsonView,
)
    requires
        d.error is Some,
    ensures
        fed(Log { d, out: Seq::empty() }, ts, elapsed_s, dir, msg).d.error == d.error,
{
    lemma_fed(Log { d, out: Seq::empty() }, ts, elapsed_s, dir, msg);
}

/// MSG is the harness's answer to a permission request of the agent's.
pub open spec fn answers_permission(d: DigestView, dir: Dir, msg: JsonView) -> bool {
    let key = json_text(id_of(msg));
    dir == Dir::Send && str_of(at(msg, "method"@)) is None && !(id_of(msg) is Null)
        && d.received.dom().contains(key) && d.received[key].0 == "session/request_permission"@
}

/// Every answer to a permission request counts once, as allowed or as
/// denied; nothing else counts.
pub proof fn law_every_permission_counts_once(
    d: DigestView,
    ts: u64,
    elapsed_s: u64,
    dir: Dir,
    msg: JsonView,
)
    requires
        d.allowed < u64::MAX,
    ensures
        ({
            let after = fed(Log { d, out: Seq::empty() }, ts, elapsed_s, dir, msg).d;
            &&& d.allowed <= after.allowed
            &&& d.denied.len() <= after.denied.len()
            &&& after.allowed + after.denied.len() == d.allowed + d.denied.len() + if
                answers_permission(d, dir, msg) {
                1int
            } else {
                0
            }
        }),
{
}

/// A request is answered once: its response leaves it awaited no more, and
/// a response to none that is awaited changes nothing.
pub proof fn law_requests_are_answered_once(
    l: Log,
    ts: u64,
    elapsed_s: u64,
    dir: Dir,
    msg: JsonView,
)
    requires
        str_of(at(msg, "method"@)) is None,
    ensures
        ({
            let key = json_text(id_of(msg));
            let after = fed(l, ts, elapsed_s, dir, msg);
            &&& !(id_of(msg) is Null) && dir == Dir::Send ==> !after.d.received.dom().contains(key)
            &&& !(id_of(msg) is Null) && dir == Dir::Recv ==> !after.d.sent.dom().contains(key)
            &&& id_of(msg) is Null ==> after == l
            &&& dir == Dir::Send && !l.d.received.dom().contains(key) ==> after == l
            &&& dir == Dir::Recv && !l.d.sent.dom().contains(key) ==> after == l
        }),
{
}

/// A response that comes again changes nothing and logs nothing, whatever
/// came of the first.
pub proof fn law_repeated_responses_change_nothing(
    l: Log,
    ts: u64,
    elapsed_s: u64,
    dir: Dir,
    msg: JsonView,
    again: u64,
    again_elapsed_s: u64,
)
    requires
        str_of(at(msg, "method"@)) is None,
    ensures
        ({
            let after = Log { d: fed(l, ts, elapsed_s, dir, msg).d, out: Seq::empty() };
            fed(after, again, again_elapsed_s, dir, msg) == after
        }),
{
    law_requests_are_answered_once(l, ts, elapsed_s, dir, msg);
}

/// Only an update of the agent's touches the tool calls.
pub proof fn law_only_updates_touch_calls(
    d: DigestView,
    ts: u64,
    elapsed_s: u64,
    dir: Dir,
    msg: JsonView,
)
    requires
        dir == Dir::Send || str_of(at(msg, "method"@)) != Some("session/update"@),
    ensures
        fed(Log { d, out: Seq::empty() }, ts, elapsed_s, dir, msg).d.calls == d.calls,
{
    let l = Log { d, out: Seq::empty() };
    let key = json_text(id_of(msg));
    match (dir, str_of(at(msg, "method"@))) {
        (Dir::Send, Some(m)) => {
            lemma_request_sent(l, m, msg);
        },
        (Dir::Recv, None) => {
            lemma_responded(
                Log { d: DigestView { sent: d.sent.remove(key), ..d }, out: l.out },
                d.sent[key],
                msg,
            );
        },
        _ => {},
    }
}

/// MSG, sent in the direction DIR, is an update of the agent's of this kind.
pub open spec fn is_update(dir: Dir, msg: JsonView, kind: Seq<char>) -> bool {
    dir == Dir::Recv && str_of(at(msg, "method"@)) == Some("session/update"@) && str_or(
        at(update_in(msg), "sessionUpdate"@),
        ""@,
    ) == kind
}

/// The id of the call that an update speaks of.
pub open spec fn update_id(msg: JsonView) -> Seq<char> {
    str_or(at(update_in(msg), "toolCallId"@), ""@)
}

/// The session has a call with this id.
pub open spec fn knows(calls: Seq<CallView>, id: Seq<char>) -> bool {
    exists|i: int| 0 <= i < calls.len() && (#[trigger] calls[i]).id == id
}

proof fn lemma_knows(calls: Seq<CallView>, id: Seq<char>)
    ensures
        knows(calls, id) <==> call_at(calls, id) < calls.len(),
{
    lemma_call_at(calls, id);
    if call_at(calls, id) < calls.len() {
        assert(calls[call_at(calls, id) as int].id == id);
    }
}

/// What updates of calls do to the calls.
proof fn lemma_touched(l: Log, ts: u64, elapsed_s: u64, update: JsonView)
    ensures
        ({
            let id = str_or(at(update, "toolCallId"@), ""@);
            let kind = str_or(at(update, "sessionUpdate"@), ""@);
            let i = call_at(l.d.calls, id) as int;
            let after = updated(l, ts, elapsed_s, update).d.calls;
            if i < l.d.calls.len() && (kind == "tool_call"@ || kind == "tool_call_update"@) {
                after == l.d.calls.update(i, after[i])
            } else if kind == "tool_call"@ {
                after == l.d.calls.push(after.last()) && after.last().id == id
                    && after.last().start == ts
            } else {
                after == l.d.calls
            }
        }),
{
    reveal_strlit("tool_call");
    reveal_strlit("tool_call_update");
    reveal_strlit("agent_message_chunk");
    assert("tool_call"@.len() == 9 && "tool_call_update"@.len() == 16
        && "agent_message_chunk"@.len() == 19);
    let id = str_or(at(update, "toolCallId"@), ""@);
    let kind = str_or(at(update, "sessionUpdate"@), ""@);
    let i = call_at(l.d.calls, id) as int;
    let after = updated(l, ts, elapsed_s, update).d.calls;
    lemma_call_at(l.d.calls, id);
    if i < l.d.calls.len() && (kind == "tool_call"@ || kind == "tool_call_update"@) {
        assert(after =~= l.d.calls.update(i, after[i]));
    } else if kind == "tool_call"@ {
        assert(after =~= l.d.calls.push(after.last()));
    }
}

/// Every call is there once: a `tool_call` with an id that no call has adds
/// one call, at the end, with that id and this start, and nothing else adds
/// any. A `tool_call` that is sent again, or a `tool_call_update`, changes
/// the call with its id and no other; where no call has it, a
/// `tool_call_update` changes none.
pub proof fn law_every_call_is_there_once(
    d: DigestView,
    ts: u64,
    elapsed_s: u64,
    dir: Dir,
    msg: JsonView,
    i: int,
)
    ensures
        ({
            let after = fed(Log { d, out: Seq::empty() }, ts, elapsed_s, dir, msg).d.calls;
            let id = update_id(msg);
            let new = is_update(dir, msg, "tool_call"@) && !knows(d.calls, id);
            &&& new ==> after.len() == d.calls.len() + 1 && after.drop_last() == d.calls
                && after.last().id == id && after.last().start == ts
            &&& !new ==> after.len() == d.calls.len()
            &&& 0 <= i < d.calls.len() && d.calls[i].id != id ==> after[i] == d.calls[i]
            &&& is_update(dir, msg, "tool_call_update"@) && !knows(d.calls, id) ==> after == d.calls
            &&& !is_update(dir, msg, "tool_call"@) && !is_update(dir, msg, "tool_call_update"@)
                ==> after == d.calls
        }),
{
    let l = Log { d, out: Seq::empty() };
    let after = fed(l, ts, elapsed_s, dir, msg).d.calls;
    let key = json_text(id_of(msg));
    let id = update_id(msg);
    lemma_knows(d.calls, id);
    lemma_call_at(d.calls, id);
    reveal_strlit("tool_call");
    reveal_strlit("tool_call_update");
    assert("tool_call"@.len() == 9 && "tool_call_update"@.len() == 16);
    if dir == Dir::Send || str_of(at(msg, "method"@)) != Some("session/update"@) {
        law_only_updates_touch_calls(d, ts, elapsed_s, dir, msg);
    } else {
        let noted = if id_of(msg) is Null {
            l
        } else {
            Log {
                d: DigestView {
                    received: d.received.insert(key, ("session/update"@, at(msg, "params"@))),
                    ..d
                },
                out: l.out,
            }
        };
        lemma_touched(noted, ts, elapsed_s, update_in(msg));
        if is_update(dir, msg, "tool_call"@) && !knows(d.calls, id) {
            assert(after.drop_last() =~= d.calls);
        }
    }
}

// ---- What each message means -------------------------------------------

/// MSG is the agent's response to a request for METHOD that the harness
/// sent before.
pub open spec fn answers(d: DigestView, dir: Dir, msg: JsonView, method: Seq<char>) -> bool {
    let key = json_text(at(msg, "id"@));
    dir == Dir::Recv && str_of(at(msg, "method"@)) is None && !(at(msg, "id"@) is Null)
        && d.sent.dom().contains(key) && d.sent[key] == method
}

/// What is logged before anything else: the agent message that was held
/// back, if it said anything.
pub open spec fn held_back(d: DigestView) -> Seq<Seq<char>> {
    if d.text.said {
        seq![cut_text("» "@ + d.text.line)]
    } else {
        Seq::empty()
    }
}

/// The methods of the protocol that a session goes by are told apart.
proof fn lemma_method_names()
    ensures
        "initialize"@.len() == 10,
        "session/new"@.len() == 11,
        "session/set_config_option"@.len() == 25,
        "session/request_permission"@.len() == 26,
        "session/prompt"@.len() == 14 && "session/prompt"@[8] == 'p',
        "session/cancel"@.len() == 14 && "session/cancel"@[8] == 'c',
        "session/update"@.len() == 14 && "session/update"@[8] == 'u',
{
    reveal_strlit("initialize");
    reveal_strlit("session/new");
    reveal_strlit("session/set_config_option");
    reveal_strlit("session/request_permission");
    reveal_strlit("session/prompt");
    reveal_strlit("session/cancel");
    reveal_strlit("session/update");
}

/// The kinds of updates are told apart.
proof fn lemma_update_kinds()
    ensures
        "agent_message_chunk"@.len() == 19,
        "tool_call"@.len() == 9,
        "tool_call_update"@.len() == 16,
        "usage_update"@.len() == 12,
        "plan"@.len() == 4,
        "completed"@.len() == 9,
        "failed"@.len() == 6,
        ""@.len() == 0,
{
    reveal_strlit("agent_message_chunk");
    reveal_strlit("tool_call");
    reveal_strlit("tool_call_update");
    reveal_strlit("usage_update");
    reveal_strlit("plan");
    reveal_strlit("completed");
    reveal_strlit("failed");
    reveal_strlit("");
}

/// A request that the harness sends awaits its response, under its id; a
/// later request with that id takes its place, and the others go on
/// waiting.
pub proof fn law_sent_requests_are_awaited(
    d: DigestView,
    ts: u64,
    elapsed_s: u64,
    msg: JsonView,
    method: Seq<char>,
    other: Seq<char>,
)
    requires
        str_of(at(msg, "method"@)) == Some(method),
        !(at(msg, "id"@) is Null),
    ensures
        ({
            let after = fed(Log { d, out: Seq::empty() }, ts, elapsed_s, Dir::Send, msg).d;
            let key = json_text(at(msg, "id"@));
            &&& after.sent.dom().contains(key) && after.sent[key] == method
            &&& other != key ==> (after.sent.dom().contains(other) <==> d.sent.dom().contains(
                other,
            )) && after.sent[other] == d.sent[other]
            &&& after.received == d.received
        }),
{
}

/// A request of the agent's awaits the harness's response, under its id,
/// with its params.
pub proof fn law_received_requests_are_awaited(
    d: DigestView,
    ts: u64,
    elapsed_s: u64,
    msg: JsonView,
    method: Seq<char>,
    other: Seq<char>,
)
    requires
        str_of(at(msg, "method"@)) == Some(method),
        !(at(msg, "id"@) is Null),
    ensures
        ({
            let after = fed(Log { d, out: Seq::empty() }, ts, elapsed_s, Dir::Recv, msg).d;
            let key = json_text(at(msg, "id"@));
            &&& after.received.dom().contains(key)
            &&& after.received[key] == (method, at(msg, "params"@))
            &&& other != key ==> (after.received.dom().contains(other)
                <==> d.received.dom().contains(other)) && after.received[other]
                == d.received[other]
            &&& after.sent == d.sent
        }),
{
}

proof fn lemma_model_option(options: Seq<JsonView>, i: int)
    requires
        0 <= i <= options.len(),
        i < options.len() ==> str_of(at(options[i], "category"@)) == Some("model"@),
        forall|k: int|
            0 <= k < i ==> str_of(at(#[trigger] options[k], "category"@)) != Some("model"@),
    ensures
        model_option(options) == if i < options.len() {
            str_of(at(options[i], "currentValue"@))
        } else {
            None
        },
    decreases i,
{
    if i > 0 {
        assert(str_of(at(options[0], "category"@)) != Some("model"@));
        let rest = options.skip(1);
        assert forall|k: int| 0 <= k < i - 1 implies str_of(at(#[trigger] rest[k], "category"@))
            != Some("model"@) by {
            assert(rest[k] == options[k + 1]);
        }
        if i < options.len() {
            assert(rest[i - 1] == options[i]);
        }
        lemma_model_option(rest, i - 1);
    }
}

/// The model of a session is the value of its config option in the category
/// `model`, the first such, whatever options of other categories stand
/// before or after it. The agent's answer to `session/new` says it, and so
/// does its answer to `session/set_config_option`.
pub proof fn law_model_option_is_the_model(
    d: DigestView,
    ts: u64,
    elapsed_s: u64,
    msg: JsonView,
    i: int,
    value: Seq<char>,
)
    requires
        answers(d, Dir::Recv, msg, "session/new"@) || answers(
            d,
            Dir::Recv,
            msg,
            "session/set_config_option"@,
        ),
        !has_field(msg, "error"@),
        0 <= i < items_of(at(at(msg, "result"@), "configOptions"@)).len(),
        ({
            let options = items_of(at(at(msg, "result"@), "configOptions"@));
            &&& str_of(at(options[i], "category"@)) == Some("model"@)
            &&& str_of(at(options[i], "currentValue"@)) == Some(value)
            &&& forall|k: int|
                0 <= k < i ==> str_of(at(#[trigger] options[k], "category"@)) != Some("model"@)
        }),
    ensures
        fed(Log { d, out: Seq::empty() }, ts, elapsed_s, Dir::Recv, msg).d.model == Some(value),
{
    lemma_method_names();
    lemma_model_option(items_of(at(at(msg, "result"@), "configOptions"@)), i);
}

/// Without such an option, or with one that holds no text, the model is the
/// one that the draft `models` state names. An answer to `session/new` that
/// names none either leaves the model open; one to
/// `session/set_config_option` leaves it as it was.
pub proof fn law_model_without_an_option(
    d: DigestView,
    ts: u64,
    elapsed_s: u64,
    msg: JsonView,
    i: int,
)
    requires
        !has_field(msg, "error"@),
        ({
            let options = items_of(at(at(msg, "result"@), "configOptions"@));
            &&& 0 <= i <= options.len()
            &&& i < options.len() ==> str_of(at(options[i], "category"@)) == Some("model"@)
                && str_of(at(options[i], "currentValue"@)) is None
            &&& forall|k: int|
                0 <= k < i ==> str_of(at(#[trigger] options[k], "category"@)) != Some("model"@)
        }),
    ensures
        ({
            let named = str_of(at(at(at(msg, "result"@), "models"@), "currentModelId"@));
            let after = fed(Log { d, out: Seq::empty() }, ts, elapsed_s, Dir::Recv, msg).d;
            &&& answers(d, Dir::Recv, msg, "session/new"@) ==> after.model == named
            &&& answers(d, Dir::Recv, msg, "session/set_config_option"@) ==> after.model == if named
                is Some {
                named
            } else {
                d.model
            }
        }),
{
    lemma_method_names();
    lemma_model_option(items_of(at(at(msg, "result"@), "configOptions"@)), i);
}

/// The agent's answer to `initialize` says who it is and which version of
/// the protocol it speaks.
pub proof fn law_agents_introduce_themselves(
    d: DigestView,
    ts: u64,
    elapsed_s: u64,
    msg: JsonView,
)
    requires
        answers(d, Dir::Recv, msg, "initialize"@),
        !has_field(msg, "error"@),
    ensures
        ({
            let after = fed(Log { d, out: Seq::empty() }, ts, elapsed_s, Dir::Recv, msg);
            let result = at(msg, "result"@);
            let name = str_of(at(at(result, "agentInfo"@), "name"@));
            let version = str_of(at(at(result, "agentInfo"@), "version"@));
            &&& after.d.protocol_version == u64_of(at(result, "protocolVersion"@))
            &&& name is None ==> after.d.agent is None
            &&& name is Some && version is None ==> after.d.agent == name
            &&& name is Some && version is Some ==> after.d.agent == Some(
                name->0 + " "@ + version->0,
            )
            &&& after.out.len() == 0
        }),
{
    lemma_method_names();
}

/// The agent's answer to `session/new` names the session, and is logged
/// with the agent, the model and the working directory.
pub proof fn law_session_starts_are_logged(
    d: DigestView,
    ts: u64,
    elapsed_s: u64,
    msg: JsonView,
    agent: Seq<char>,
    model: Seq<char>,
)
    requires
        answers(d, Dir::Recv, msg, "session/new"@),
        !has_field(msg, "error"@),
        d.agent is Some ==> d.agent == Some(agent),
        d.agent is None ==> agent == "unknown agent"@,
        ({
            let after = fed(Log { d, out: Seq::empty() }, ts, elapsed_s, Dir::Recv, msg).d;
            &&& after.model is Some ==> after.model == Some(model)
            &&& after.model is None ==> model == "default model"@
        }),
    ensures
        ({
            let after = fed(Log { d, out: Seq::empty() }, ts, elapsed_s, Dir::Recv, msg);
            &&& after.d.session_id == str_of(at(at(msg, "result"@), "sessionId"@))
            &&& after.out == seq![
                cut_text("start: "@ + agent + ", "@ + model + ", in "@ + d.cwd),
            ]
        }),
{
    lemma_method_names();
    let after = fed(Log { d, out: Seq::empty() }, ts, elapsed_s, Dir::Recv, msg);
    assert(after.out =~= seq![cut_text("start: "@ + agent + ", "@ + model + ", in "@ + d.cwd)]);
}

/// The agent's answer to `session/prompt` says why the turn stopped and,
/// where the agent reports it, what it used. What the agent said last is
/// logged before the end of the turn, which counts the tool calls.
pub proof fn law_turn_ends_are_logged(
    d: DigestView,
    ts: u64,
    elapsed_s: u64,
    msg: JsonView,
    reason: Seq<char>,
)
    requires
        answers(d, Dir::Recv, msg, "session/prompt"@),
        !has_field(msg, "error"@),
        ({
            let said = str_of(at(at(msg, "result"@), "stopReason"@));
            &&& said is Some ==> said == Some(reason)
            &&& said is None ==> reason == "?"@
        }),
    ensures
        ({
            let after = fed(Log { d, out: Seq::empty() }, ts, elapsed_s, Dir::Recv, msg);
            let used = at(at(msg, "result"@), "usage"@);
            &&& after.d.stop_reason == str_of(at(at(msg, "result"@), "stopReason"@))
            &&& after.d.usage == if used is Null {
                d.usage
            } else {
                Some(used)
            }
            &&& after.d.text == crate::message::no_line()
            &&& after.out == held_back(d).push(
                cut_text("done: "@ + reason + ", "@ + decimal(d.calls.len()) + " tool calls"@),
            )
        }),
{
    lemma_method_names();
    let after = fed(Log { d, out: Seq::empty() }, ts, elapsed_s, Dir::Recv, msg);
    assert(after.out =~= held_back(d).push(
        cut_text("done: "@ + reason + ", "@ + decimal(d.calls.len()) + " tool calls"@),
    ));
}

/// A request that the agent answers with an error is logged with its method
/// and what the agent says; the first one is the session's error. Nothing
/// else comes of the answer.
pub proof fn law_failed_requests_are_logged(
    d: DigestView,
    ts: u64,
    elapsed_s: u64,
    msg: JsonView,
    method: Seq<char>,
    why: Seq<char>,
)
    requires
        answers(d, Dir::Recv, msg, method),
        has_field(msg, "error"@),
        ({
            let said = str_of(at(at(msg, "error"@), "message"@));
            &&& said is Some ==> said == Some(why)
            &&& said is None ==> why == "unknown error"@
        }),
    ensures
        ({
            let after = fed(Log { d, out: Seq::empty() }, ts, elapsed_s, Dir::Recv, msg);
            let line = cut_text(method + " failed: "@ + why);
            &&& after.out == seq!["⚠ "@ + line]
            &&& after.d.error == if d.error is Some {
                d.error
            } else {
                Some(line)
            }
            &&& after.d == (DigestView {
                error: after.d.error,
                sent: d.sent.remove(json_text(at(msg, "id"@))),
                ..d
            })
        }),
{
    let after = fed(Log { d, out: Seq::empty() }, ts, elapsed_s, Dir::Recv, msg);
    assert(after.out =~= seq!["⚠ "@ + cut_text(method + " failed: "@ + why)]);
}

/// `session/new` says where the session works, and `session/cancel` is
/// logged, after what the agent said last.
pub proof fn law_requests_of_the_harness(
    d: DigestView,
    ts: u64,
    elapsed_s: u64,
    msg: JsonView,
    method: Seq<char>,
)
    requires
        str_of(at(msg, "method"@)) == Some(method),
    ensures
        ({
            let after = fed(Log { d, out: Seq::empty() }, ts, elapsed_s, Dir::Send, msg);
            let cwd = str_of(at(at(msg, "params"@), "cwd"@));
            &&& method == "session/new"@ && cwd is Some ==> after.d.cwd == cwd->0
            &&& method != "session/new"@ || cwd is None ==> after.d.cwd == d.cwd
            &&& method == "session/cancel"@ ==> after.out == held_back(d).push(
                "⚠ cancelling the session"@,
            )
            &&& method != "session/cancel"@ ==> after.out.len() == 0 && after.d.text == d.text
        }),
{
    lemma_method_names();
    let after = fed(Log { d, out: Seq::empty() }, ts, elapsed_s, Dir::Send, msg);
    if method == "session/cancel"@ {
        assert(after.out =~= held_back(d).push("⚠ cancelling the session"@));
    }
}

/// What the agent says is held back and joined, chunk by chunk; nothing is
/// logged of it yet.
pub proof fn law_message_chunks_are_held_back(
    d: DigestView,
    ts: u64,
    elapsed_s: u64,
    msg: JsonView,
)
    requires
        is_update(Dir::Recv, msg, "agent_message_chunk"@),
    ensures
        ({
            let after = fed(Log { d, out: Seq::empty() }, ts, elapsed_s, Dir::Recv, msg);
            let text = str_of(at(at(at(at(msg, "params"@), "update"@), "content"@), "text"@));
            &&& after.out.len() == 0
            &&& text is Some ==> after.d.text == crate::message::line_after_text(d.text, text->0)
            &&& text is None ==> after.d.text == d.text
            &&& after.d.calls == d.calls
        }),
{
    lemma_method_names();
}

/// Any other update logs what was held back before anything of its own.
pub proof fn law_messages_are_logged_first(
    d: DigestView,
    ts: u64,
    elapsed_s: u64,
    msg: JsonView,
)
    requires
        str_of(at(msg, "method"@)) == Some("session/update"@),
        !is_update(Dir::Recv, msg, "agent_message_chunk"@),
    ensures
        ({
            let after = fed(Log { d, out: Seq::empty() }, ts, elapsed_s, Dir::Recv, msg);
            &&& held_back(d).is_prefix_of(after.out)
            &&& after.d.text == crate::message::no_line()
        }),
{
    lemma_method_names();
    let after = fed(Log { d, out: Seq::empty() }, ts, elapsed_s, Dir::Recv, msg);
    let f = flushed(Log { d, out: Seq::empty() });
    assert(f.out =~= held_back(d));
    assert(held_back(d) =~= after.out.subrange(0, held_back(d).len() as int));
}

/// The cost of a session is the last one that the agent reports in USD, or
/// in no currency at all; one in another currency counts for nothing.
pub proof fn law_costs_count_in_usd(
    d: DigestView,
    ts: u64,
    elapsed_s: u64,
    msg: JsonView,
    currency: Seq<char>,
)
    requires
        is_update(Dir::Recv, msg, "usage_update"@),
    ensures
        ({
            let after = fed(Log { d, out: Seq::empty() }, ts, elapsed_s, Dir::Recv, msg).d;
            let cost = at(at(at(msg, "params"@), "update"@), "cost"@);
            let named = str_of(at(cost, "currency"@));
            let number = at(cost, "amount"@);
            &&& number is Number && (named is None || named == Some("USD"@) || named == Some(
                "usd"@,
            )) ==> after.cost_usd == Some(number->Number_0)
            &&& !(number is Number) ==> after.cost_usd == d.cost_usd
            &&& named == Some(currency) && currency.len() != 3 ==> after.cost_usd == d.cost_usd
            &&& named == Some(currency) && currency.len() == 3 && (currency[0] != 'U'
                && currency[0] != 'u' || currency[1] != 'S' && currency[1] != 's' || currency[2]
                != 'D' && currency[2] != 'd') ==> after.cost_usd == d.cost_usd
        }),
{
    lemma_method_names();
    lemma_update_kinds();
    reveal_strlit("USD");
    reveal_strlit("usd");
}

/// A plan is logged with the number of its entries.
pub proof fn law_plans_are_logged(d: DigestView, ts: u64, elapsed_s: u64, msg: JsonView)
    requires
        is_update(Dir::Recv, msg, "plan"@),
    ensures
        fed(Log { d, out: Seq::empty() }, ts, elapsed_s, Dir::Recv, msg).out == held_back(d).push(
            "plan: "@ + decimal(
                items_of(at(at(at(msg, "params"@), "update"@), "entries"@)).len(),
            ) + " entries"@,
        ),
{
    lemma_method_names();
    lemma_update_kinds();
    assert(fed(Log { d, out: Seq::empty() }, ts, elapsed_s, Dir::Recv, msg).out =~= held_back(
        d,
    ).push(
        "plan: "@ + decimal(items_of(at(at(at(msg, "params"@), "update"@), "entries"@)).len())
            + " entries"@,
    ));
}

/// What is known of a session comes from the messages that say it, and from
/// no others.
pub proof fn law_facts_come_from_their_messages(
    d: DigestView,
    ts: u64,
    elapsed_s: u64,
    dir: Dir,
    msg: JsonView,
)
    ensures
        ({
            let after = fed(Log { d, out: Seq::empty() }, ts, elapsed_s, dir, msg).d;
            let succeeds = !has_field(msg, "error"@);
            &&& after.cost_usd != d.cost_usd ==> is_update(dir, msg, "usage_update"@)
            &&& after.agent != d.agent || after.protocol_version != d.protocol_version ==> answers(
                d,
                dir,
                msg,
                "initialize"@,
            ) && succeeds
            &&& after.session_id != d.session_id ==> answers(d, dir, msg, "session/new"@)
                && succeeds
            &&& after.model != d.model ==> (answers(d, dir, msg, "session/new"@) || answers(
                d,
                dir,
                msg,
                "session/set_config_option"@,
            )) && succeeds
            &&& after.stop_reason != d.stop_reason || after.usage != d.usage ==> answers(
                d,
                dir,
                msg,
                "session/prompt"@,
            ) && succeeds
            &&& after.cwd != d.cwd ==> dir == Dir::Send && str_of(at(msg, "method"@)) == Some(
                "session/new"@,
            )
            &&& after.error != d.error ==> dir == Dir::Recv && has_field(msg, "error"@)
                && d.sent.dom().contains(json_text(at(msg, "id"@)))
        }),
{
    lemma_method_names();
    lemma_update_kinds();
}

/// A call that was announced before takes over what the update says of it
/// and, where that says that it ended, is summed up, timed and logged, once:
/// it failed where the agent says so or where its exit status is not zero.
pub proof fn law_ended_calls_are_logged(
    d: DigestView,
    ts: u64,
    elapsed_s: u64,
    msg: JsonView,
    i: int,
)
    requires
        is_update(Dir::Recv, msg, "tool_call_update"@) || is_update(Dir::Recv, msg, "tool_call"@),
        0 <= i < d.calls.len(),
        d.calls[i].id == update_id(msg),
        forall|k: int| 0 <= k < i ==> (#[trigger] d.calls[k]).id != update_id(msg),
    ensures
        ({
            let update = at(at(msg, "params"@), "update"@);
            let status = str_of(at(update, "status"@));
            let ends = status == Some("completed"@) || status == Some("failed"@);
            let call = merged(d.calls[i], update);
            let text = crate::toolcall::content_text_of(call.content);
            let exit = crate::toolcall::exit_status_of(text, call.raw_output);
            let failed = status == Some("failed"@) || (exit is Some && exit != Some(0int));
            let after = fed(Log { d, out: Seq::empty() }, ts, elapsed_s, Dir::Recv, msg);
            let ended = after.d.calls[i];
            let name = display_name_of(call);
            let summary = summary_of(call, d.cwd);
            let edits = call.kind == "edit"@ || call.kind == "delete"@ || call.kind == "move"@;
            let n = held_back(d).len() as int;
            if !ends || d.calls[i].end is Some {
                ended == call && after.out == held_back(d)
            } else {
                &&& ended.end == Some(ts)
                &&& ended.duration_s == Some(elapsed_s)
                &&& ended.error == Some(failed)
                &&& ended.summary == summary
                &&& ended.message == if failed {
                    Some(crate::toolcall::error_line_of(text))
                } else {
                    call.message
                }
                &&& ended.name == call.name && ended.kind == call.kind && ended.title
                    == call.title && ended.raw_input == call.raw_input
                &&& after.out.len() == n + if failed {
                    2int
                } else {
                    1
                }
                &&& edits && !failed ==> after.out[n] == "✎ "@ + name + " "@ + summary
                &&& !edits && !failed && exit is None ==> after.out[n] == cut_text(
                    "▶ "@ + name + ": "@ + summary + " ("@ + "ok"@ + ", "@ + decimal(
                        elapsed_s as nat,
                    ) + "s)"@,
                )
                &&& failed && exit is None ==> after.out[n] == cut_text(
                    "▶ "@ + name + ": "@ + summary + " ("@ + "error"@ + ", "@ + decimal(
                        elapsed_s as nat,
                    ) + "s)"@,
                )
                &&& (failed || !edits) && exit is Some ==> after.out[n] == cut_text(
                    "▶ "@ + name + ": "@ + summary + " ("@ + ("exit "@ + signed_decimal(exit->0))
                        + ", "@ + decimal(elapsed_s as nat) + "s)"@,
                )
                &&& failed ==> after.out[n + 1] == cut_text(
                    "⚠ tool error: "@ + name + ": "@ + crate::toolcall::error_line_of(text),
                )
            }
        }),
{
    lemma_method_names();
    lemma_update_kinds();
    crate::digest::lemma_call_at_is(d.calls, update_id(msg), i as nat);
    let after = fed(Log { d, out: Seq::empty() }, ts, elapsed_s, Dir::Recv, msg);
    let f = flushed(Log { d, out: Seq::empty() });
    assert(f.out =~= held_back(d));
}

/// A call that is announced starts then, with what the announcement says of
/// it; where that says that it ended too, it took no time.
pub proof fn law_announced_calls_start(
    d: DigestView,
    ts: u64,
    elapsed_s: u64,
    msg: JsonView,
)
    requires
        is_update(Dir::Recv, msg, "tool_call"@),
        !knows(d.calls, update_id(msg)),
    ensures
        ({
            let update = at(at(msg, "params"@), "update"@);
            let after = fed(Log { d, out: Seq::empty() }, ts, elapsed_s, Dir::Recv, msg).d;
            let call = after.calls.last();
            let status = str_of(at(update, "status"@));
            let title = str_of(at(update, "title"@));
            &&& after.calls.len() > 0
            &&& call.start == ts
            &&& title is Some ==> call.title == title->0 && call.first_title == title->0
            &&& str_of(at(update, "kind"@)) is Some ==> Some(call.kind) == str_of(
                at(update, "kind"@),
            )
            &&& call.raw_input == at(update, "rawInput"@)
            &&& call.content == at(update, "content"@)
            &&& call.raw_output == at(update, "rawOutput"@)
            &&& call.end is Some <==> status == Some("completed"@) || status == Some("failed"@)
            &&& call.end is Some ==> call.end == Some(ts) && call.duration_s == Some(0u64)
        }),
{
    lemma_method_names();
    lemma_update_kinds();
    lemma_knows(d.calls, update_id(msg));
    lemma_call_at(d.calls, update_id(msg));
}

proof fn lemma_option_kind(options: Seq<JsonView>, selected: Seq<char>, i: int)
    requires
        0 <= i <= options.len(),
        i < options.len() ==> str_of(at(options[i], "optionId"@)) == Some(selected),
        forall|k: int|
            0 <= k < i ==> str_of(at(#[trigger] options[k], "optionId"@)) != Some(selected),
    ensures
        crate::digest::option_kind(options, selected) == if i < options.len() {
            str_of(at(options[i], "kind"@))
        } else {
            None
        },
    decreases i,
{
    if i > 0 {
        assert(str_of(at(options[0], "optionId"@)) != Some(selected));
        let rest = options.skip(1);
        assert forall|k: int| 0 <= k < i - 1 implies str_of(at(#[trigger] rest[k], "optionId"@))
            != Some(selected) by {
            assert(rest[k] == options[k + 1]);
        }
        if i < options.len() {
            assert(rest[i - 1] == options[i]);
        }
        lemma_option_kind(rest, selected, i - 1);
    }
}

/// A permission request is allowed where the harness selects an option whose
/// kind starts with `allow`: the first option with the selected id counts.
pub proof fn law_selected_allows_are_counted(
    d: DigestView,
    ts: u64,
    elapsed_s: u64,
    msg: JsonView,
    i: int,
    kind: Seq<char>,
)
    requires
        answers_permission(d, Dir::Send, msg),
        d.allowed < u64::MAX,
        ({
            let options = items_of(at(d.received[json_text(at(msg, "id"@))].1, "options"@));
            let selected = str_of(at(at(at(msg, "result"@), "outcome"@), "optionId"@));
            &&& 0 <= i < options.len()
            &&& selected is Some && str_of(at(options[i], "optionId"@)) == selected
            &&& str_of(at(options[i], "kind"@)) == Some("allow"@ + kind)
            &&& forall|k: int|
                0 <= k < i ==> str_of(at(#[trigger] options[k], "optionId"@)) != selected
        }),
    ensures
        ({
            let after = fed(Log { d, out: Seq::empty() }, ts, elapsed_s, Dir::Send, msg);
            after.d.allowed == d.allowed + 1 && after.d.denied == d.denied && after.out.len() == 0
        }),
{
    let options = items_of(at(d.received[json_text(at(msg, "id"@))].1, "options"@));
    let selected = str_of(at(at(at(msg, "result"@), "outcome"@), "optionId"@));
    lemma_option_kind(options, selected->0, i);
    assert(("allow"@ + kind).take("allow"@.len() as int) =~= "allow"@);
}

/// A permission request is denied where the harness selects nothing, an
/// option that wasn't offered, or one whose kind does not start with
/// `allow`. It is logged and listed with the tool, what the call does and
/// the rule that decided, if one did; what the request leaves out is known
/// from the call.
pub proof fn law_other_answers_deny(
    d: DigestView,
    ts: u64,
    elapsed_s: u64,
    msg: JsonView,
    i: int,
)
    requires
        answers_permission(d, Dir::Send, msg),
        ({
            let options = items_of(at(d.received[json_text(at(msg, "id"@))].1, "options"@));
            let selected = str_of(at(at(at(msg, "result"@), "outcome"@), "optionId"@));
            ||| selected is None
            ||| 0 <= i <= options.len() && (forall|k: int|
                0 <= k < i ==> str_of(at(#[trigger] options[k], "optionId"@)) != selected) && (i
                < options.len() ==> str_of(at(options[i], "optionId"@)) == selected && (str_of(
                at(options[i], "kind"@),
            ) is None || !"allow"@.is_prefix_of(str_of(at(options[i], "kind"@))->0)))
        }),
    ensures
        ({
            let after = fed(Log { d, out: Seq::empty() }, ts, elapsed_s, Dir::Send, msg);
            let asked = at(d.received[json_text(at(msg, "id"@))].1, "toolCall"@);
            let id = str_of(at(asked, "toolCallId"@));
            let rule = str_of(at(at(at(at(msg, "result"@), "_meta"@), "botHarness"@), "rule"@));
            let denial = after.d.denied.last();
            &&& after.d.allowed == d.allowed
            &&& after.d.denied.len() == d.denied.len() + 1
            &&& after.d.denied.drop_last() == d.denied
            &&& denial.rule == rule
            &&& id is None ==> denial.tool == display_name_of(
                merged(new_call(Seq::empty(), 0), asked),
            ) && denial.summary == summary_of(merged(new_call(Seq::empty(), 0), asked), d.cwd)
            &&& forall|k: int|
                0 <= k < d.calls.len() && id == Some((#[trigger] d.calls[k]).id) && distinct_calls(
                    d.calls,
                ) ==> denial.tool == display_name_of(merged(d.calls[k], asked))
                    && denial.summary == summary_of(merged(d.calls[k], asked), d.cwd)
            &&& after.out == seq![
                cut_text(
                    "⛔ denied "@ + denial.tool + ": "@ + denial.summary + " ("@ + (if rule is Some {
                        "rule "@ + rule->0
                    } else {
                        "default"@
                    }) + ")"@,
                ),
            ]
        }),
{
    let options = items_of(at(d.received[json_text(at(msg, "id"@))].1, "options"@));
    let selected = str_of(at(at(at(msg, "result"@), "outcome"@), "optionId"@));
    let asked = at(d.received[json_text(at(msg, "id"@))].1, "toolCall"@);
    let id = str_of(at(asked, "toolCallId"@));
    reveal_strlit("allow");
    reveal_strlit("cancelled");
    assert("cancelled"@.take(5)[0] == 'c' && "allow"@[0] == 'a' && "allow"@.len() == 5);
    if selected is Some {
        lemma_option_kind(options, selected->0, i);
        if i < options.len() && str_of(at(options[i], "kind"@)) is Some {
            let kind = str_of(at(options[i], "kind"@))->0;
            if kind.len() >= 5 {
                assert(kind.subrange(0, 5) =~= kind.take(5));
            }
        }
    }
    let after = fed(Log { d, out: Seq::empty() }, ts, elapsed_s, Dir::Send, msg);
    assert(after.d.denied.drop_last() =~= d.denied);
    assert forall|k: int|
        0 <= k < d.calls.len() && id == Some((#[trigger] d.calls[k]).id) && distinct_calls(
            d.calls,
        ) implies after.d.denied.last().tool == display_name_of(merged(d.calls[k], asked))
        && after.d.denied.last().summary == summary_of(merged(d.calls[k], asked), d.cwd) by {
        assert forall|m: int| 0 <= m < k implies (#[trigger] d.calls[m]).id != id->0 by {
            assert(d.calls[m].id != d.calls[k].id);
        }
        crate::digest::lemma_call_at_is(d.calls, id->0, k as nat);
    }
    assert(after.out.len() == 1);
    assert(after.out =~= seq![after.out[0]]);
}

/// What is said last is logged at the end.
pub proof fn law_last_message_is_logged(d: DigestView)
    ensures
        flushed(Log { d, out: Seq::empty() }).out == held_back(d),
        flushed(Log { d, out: Seq::empty() }).d == (DigestView {
            text: crate::message::no_line(),
            ..d
        }),
{
    assert(flushed(Log { d, out: Seq::empty() }).out =~= held_back(d));
}

/// How long ago a call started is asked of the call that an update names.
pub proof fn law_started_calls_are_found(d: DigestView, msg: JsonView, i: int)
    requires
        distinct_calls(d.calls),
    ensures
        str_of(at(msg, "method"@)) != Some("session/update"@) ==> started_of(d, msg) is None,
        str_of(at(msg, "method"@)) == Some("session/update"@) && 0 <= i < d.calls.len()
            && d.calls[i].id == update_id(msg) ==> started_of(d, msg) == Some(d.calls[i].start),
        str_of(at(msg, "method"@)) == Some("session/update"@) && !knows(d.calls, update_id(msg))
            ==> started_of(d, msg) is None,
{
    lemma_knows(d.calls, update_id(msg));
    lemma_call_at(d.calls, update_id(msg));
    if 0 <= i < d.calls.len() && d.calls[i].id == update_id(msg) {
        assert forall|m: int| 0 <= m < i implies (#[trigger] d.calls[m]).id != update_id(msg) by {
            assert(d.calls[m].id != d.calls[i].id);
        }
        crate::digest::lemma_call_at_is(d.calls, update_id(msg), i as nat);
    }
}

// ---- Times -------------------------------------------------------------

/// A call but for how long it took.
pub open spec fn untimed_call(call: CallView) -> CallView {
    CallView { duration_s: None, ..call }
}

/// A session but for how long its calls took.
pub open spec fn untimed(d: DigestView) -> DigestView {
    DigestView { calls: Seq::new(d.calls.len(), |i: int| untimed_call(d.calls[i])), ..d }
}

proof fn lemma_untimed_call_at(calls: Seq<CallView>, id: Seq<char>)
    ensures
        call_at(Seq::new(calls.len(), |i: int| untimed_call(calls[i])), id) == call_at(calls, id),
{
    let u = Seq::new(calls.len(), |i: int| untimed_call(calls[i]));
    lemma_call_at(calls, id);
    assert forall|i: int| 0 <= i < call_at(calls, id) implies (#[trigger] u[i]).id != id by {
        assert(calls[i].id != id);
    }
    crate::digest::lemma_call_at_is(u, id, call_at(calls, id));
}

/// When the calls of a session started does not depend on how long they
/// took.
pub proof fn law_starts_are_untimed(d: DigestView, msg: JsonView)
    ensures
        started_of(untimed(d), msg) == started_of(d, msg),
{
    let id = str_or(at(update_in(msg), "toolCallId"@), ""@);
    lemma_untimed_call_at(d.calls, id);
    lemma_call_at(d.calls, id);
}

proof fn lemma_untimed_status(l: Log, i: int, ts: u64, secs: u64, update: JsonView)
    requires
        0 <= i < l.d.calls.len(),
    ensures
        untimed(status_noted(l, i, ts, secs, update).d) == untimed(
            status_noted(Log { d: untimed(l.d), out: Seq::empty() }, i, ts, 0, update).d,
        ),
{
    let a = status_noted(l, i, ts, secs, update).d;
    let b = status_noted(Log { d: untimed(l.d), out: Seq::empty() }, i, ts, 0, update).d;
    assert(untimed(a).calls =~= untimed(b).calls);
}

proof fn lemma_untimed_update(l: Log, i: int, ts: u64, secs: u64, update: JsonView)
    requires
        0 <= i < l.d.calls.len(),
    ensures
        untimed(call_updated(l, i, ts, secs, update).d) == untimed(
            call_updated(Log { d: untimed(l.d), out: Seq::empty() }, i, ts, 0, update).d,
        ),
{
    let u = untimed(l.d);
    let m = Log {
        d: DigestView { calls: l.d.calls.update(i, merged(l.d.calls[i], update)), ..l.d },
        out: l.out,
    };
    let n = Log {
        d: DigestView { calls: u.calls.update(i, merged(u.calls[i], update)), ..u },
        out: Seq::empty(),
    };
    assert(untimed(m.d).calls =~= n.d.calls);
    assert(untimed(m.d) =~= n.d);
    assert(untimed(n.d).calls =~= n.d.calls);
    lemma_untimed_status(m, i, ts, secs, update);
}

proof fn lemma_untimed_touch(l: Log, ts: u64, elapsed_s: u64, update: JsonView)
    requires
        str_or(at(update, "sessionUpdate"@), ""@) == "tool_call"@
            || str_or(at(update, "sessionUpdate"@), ""@) == "tool_call_update"@,
    ensures
        untimed(updated(l, ts, elapsed_s, update).d) == untimed(
            updated(Log { d: untimed(l.d), out: Seq::empty() }, ts, 0, update).d,
        ),
{
    reveal_strlit("tool_call");
    reveal_strlit("tool_call_update");
    reveal_strlit("agent_message_chunk");
    assert("tool_call"@.len() == 9 && "tool_call_update"@.len() == 16
        && "agent_message_chunk"@.len() == 19);
    let u = Log { d: untimed(l.d), out: Seq::empty() };
    let id = str_or(at(update, "toolCallId"@), ""@);
    let kind = str_or(at(update, "sessionUpdate"@), ""@);
    let i = call_at(l.d.calls, id);
    lemma_untimed_call_at(l.d.calls, id);
    lemma_call_at(l.d.calls, id);
    let f = flushed(l);
    let g = flushed(u);
    assert(untimed(f.d) =~= g.d);
    assert(untimed(g.d) =~= g.d);
    if i < l.d.calls.len() {
        lemma_untimed_update(f, i as int, ts, elapsed_s, update);
        lemma_untimed_update(g, i as int, ts, 0, update);
    } else if kind == "tool_call"@ {
        let m = Log {
            d: DigestView { calls: f.d.calls.push(new_call(id, ts)), ..f.d },
            out: f.out,
        };
        let n = Log {
            d: DigestView { calls: g.d.calls.push(new_call(id, ts)), ..g.d },
            out: g.out,
        };
        assert(untimed(m.d) =~= n.d);
        assert(untimed(n.d) =~= n.d);
        lemma_untimed_update(m, i as int, ts, 0, update);
        lemma_untimed_update(n, i as int, ts, 0, update);
    }
}

proof fn lemma_untimed_asked(d: DigestView, params: JsonView, result: JsonView)
    ensures
        untimed(permission_noted(Log { d, out: Seq::empty() }, params, result).d) == untimed(
            permission_noted(Log { d: untimed(d), out: Seq::empty() }, params, result).d,
        ),
{
    let call = at(params, "toolCall"@);
    if let Some(id) = str_of(at(call, "toolCallId"@)) {
        lemma_untimed_call_at(d.calls, id);
        lemma_call_at(d.calls, id);
    }
    let a = permission_noted(Log { d, out: Seq::empty() }, params, result).d;
    let b = permission_noted(Log { d: untimed(d), out: Seq::empty() }, params, result).d;
    assert(untimed(a).calls =~= untimed(b).calls);
    assert(a.denied =~= b.denied);
}

/// What a message changes does not depend on how long the calls took so
/// far, nor on how long the one that it ends did, but for that duration.
pub proof fn law_messages_are_untimed(
    l: Log,
    ts: u64,
    elapsed_s: u64,
    dir: Dir,
    msg: JsonView,
)
    ensures
        untimed(fed(l, ts, elapsed_s, dir, msg).d) == untimed(
            fed(Log { d: untimed(l.d), out: Seq::empty() }, ts, 0, dir, msg).d,
        ),
{
    let u = Log { d: untimed(l.d), out: Seq::empty() };
    let a = fed(l, ts, elapsed_s, dir, msg).d;
    let b = fed(u, ts, 0, dir, msg).d;
    let key = json_text(id_of(msg));
    let update = update_in(msg);
    let kind = str_or(at(update, "sessionUpdate"@), ""@);
    assert(untimed(u.d) =~= u.d);
    match (dir, str_of(at(msg, "method"@))) {
        (Dir::Recv, Some(m)) => {
            let n = if id_of(msg) is Null {
                l
            } else {
                Log {
                    d: DigestView {
                        received: l.d.received.insert(key, (m, at(msg, "params"@))),
                        ..l.d
                    },
                    out: l.out,
                }
            };
            let o = if id_of(msg) is Null {
                u
            } else {
                Log {
                    d: DigestView {
                        received: u.d.received.insert(key, (m, at(msg, "params"@))),
                        ..u.d
                    },
                    out: u.out,
                }
            };
            assert(untimed(n.d) =~= o.d);
            if m == "session/update"@ {
                if kind == "tool_call"@ || kind == "tool_call_update"@ {
                    lemma_untimed_touch(n, ts, elapsed_s, update);
                } else {
                    assert(untimed(a).calls =~= untimed(b).calls);
                }
            } else {
                assert(untimed(a).calls =~= untimed(b).calls);
            }
        },
        (Dir::Send, None) => {
            if !(id_of(msg) is Null) && l.d.received.dom().contains(key) {
                let n = DigestView { received: l.d.received.remove(key), ..l.d };
                let (method, params) = l.d.received[key];
                lemma_untimed_asked(n, params, at(msg, "result"@));
                assert(untimed(n) =~= DigestView { received: u.d.received.remove(key), ..u.d });
                if method != "session/request_permission"@ {
                    assert(untimed(a).calls =~= untimed(b).calls);
                }
            } else {
                assert(untimed(a).calls =~= untimed(b).calls);
            }
        },
        _ => {
            law_only_updates_touch_calls(l.d, ts, elapsed_s, dir, msg);
            assert(untimed(a).calls =~= untimed(b).calls);
        },
    }
}

} // verus!
