use bot_harness::digest::{Digest, Dir};
use bot_harness::json::Json;
use bot_harness::run::{Limits, Outcome, Record, RunResult};
use bot_harness::summary::{
    acp_usage, call_starts, can_summarize, outcome_or_none, proxy_usage, read_jsonl, replay,
    summarize, Inputs, SCHEMA,
};

fn j(text: &str) -> Json {
    Json::parse(text).unwrap()
}

fn meta(exit_code: i64) -> Json {
    j(&format!(
        r#"{{
            "run_id": 1, "run_attempt": 1, "run_url": "https://example.com/1", "item": "PVTI_x",
            "repo": "o/r", "base": "main", "workflow": "branch", "agent": "goose", "model": "m-default",
            "cores": 4, "started_at": "2026-09-25T00:00:00Z", "finished_at": "2026-09-25T00:01:00Z",
            "duration_s": 60, "exit_code": {exit_code}, "aic_budget": 500, "aic_pricing": "mock",
            "files": ["MOCK.md"], "egress_denied": [], "redactions": 2
        }}"#
    ))
}

fn rec(ts: f64, dir: Dir, msg: &str) -> Record {
    Record {
        ts: ts.to_bits(),
        dir,
        msg: Some(j(msg)),
        line: None,
    }
}

fn update(ts: f64, u: &str) -> Record {
    rec(
        ts,
        Dir::Recv,
        &format!(r#"{{"method": "session/update", "params": {{"update": {u}}}}}"#),
    )
}

fn elapsed(records: &Vec<Record>) -> Vec<u64> {
    call_starts(records)
        .iter()
        .zip(records)
        .map(|(start, r)| match start {
            Some(s) => (f64::from_bits(r.ts) - f64::from_bits(*s)).max(0.0).floor() as u64,
            None => 0,
        })
        .collect()
}

fn result(outcome: Outcome, message: Option<&str>) -> RunResult {
    RunResult {
        schema: "bot-harness-result/v1".into(),
        agent: "a".into(),
        command: vec![],
        result: outcome,
        stop_reason: None,
        message: message.map(str::to_owned),
        started_at: String::new(),
        finished_at: String::new(),
        duration_s: 0,
        limits: Limits {
            timeout_s: 1,
            budget_aic: None,
            max_tool_calls: None,
        },
    }
}

#[test]
fn killed_harness() {
    // No harness.json: the supervisor's exit status decides.
    let records = vec![rec(
        0.0,
        Dir::Send,
        r#"{"jsonrpc": "2.0", "id": 0, "method": "initialize"}"#,
    )];
    for (exit, want, kind) in [(124, "timeout", "timeout"), (137, "failure", "agent_exit")] {
        let m = meta(exit);
        let i = Inputs {
            records: &records,
            elapsed: &elapsed(&records),
            result: None,
            meta: &m,
            outcome: &j("{}"),
            usage_log: None,
            aic: &Json::Null,
        };
        assert!(can_summarize(&i));
        let s = summarize(&i);
        assert_eq!(s.at("result").as_str(), Some(want));
        let failures = s.at("failures").as_array().unwrap();
        assert_eq!(failures[0].at("kind").as_str(), Some(kind));
        assert_eq!(s.at("model").as_str(), Some("m-default"));
        assert!(s.at("tokens").at("input").is_null());
        assert!(s.at("turns").is_null());
    }
}

#[test]
fn proxy_usage_counts() {
    let log = vec![
        j(r#"{"input_tokens": 10, "output_tokens": 2, "cache_read_input_tokens": 0, "cache_creation_input_tokens": 0, "tools": true}"#),
        j(r#"{"input_tokens": 5, "output_tokens": 1, "tools": false}"#),
        j(r#"{"input_tokens": 20, "output_tokens": 3, "cache_read_input_tokens": 7}"#),
    ];
    let (turns, tokens) = proxy_usage(&log);
    assert_eq!(turns, 2);
    assert_eq!(
        tokens.to_text(),
        r#"{"input":35,"output":6,"cache_read":7,"cache_write":0}"#
    );
}

/// A session with four calls, one of them failed and one not ended.
fn session() -> Vec<Record> {
    vec![
        rec(0.0, Dir::Send, r#"{"id": 0, "method": "initialize"}"#),
        rec(0.0, Dir::Recv, r#"{"id": 0, "result": {"protocolVersion": 1, "agentInfo": {"name": "a"}}}"#),
        Record {
            ts: 0.0f64.to_bits(),
            dir: Dir::Recv,
            msg: None,
            line: Some("noise".into()),
        },
        rec(0.0, Dir::Send, r#"{"id": 1, "method": "session/prompt"}"#),
        update(1.0, r#"{"sessionUpdate": "tool_call", "toolCallId": "1", "name": "Read", "rawInput": {"path": "x"}}"#),
        update(2.0, r#"{"sessionUpdate": "tool_call", "toolCallId": "2", "name": "Bash", "rawInput": {"command": "false"}}"#),
        update(3.0, r#"{"sessionUpdate": "tool_call", "toolCallId": "3", "name": "Read", "rawInput": {"path": "y"}}"#),
        update(4.0, r#"{"sessionUpdate": "tool_call", "toolCallId": "4", "name": "Web"}"#),
        update(4.0, r#"{"sessionUpdate": "tool_call_update", "toolCallId": "1", "status": "completed"}"#),
        update(9.5, r#"{"sessionUpdate": "tool_call_update", "toolCallId": "2", "status": "failed", "content": [{"type": "content", "content": {"type": "text", "text": "boom"}}]}"#),
        update(6.0, r#"{"sessionUpdate": "tool_call_update", "toolCallId": "3", "status": "completed"}"#),
        rec(10.0, Dir::Recv, r#"{"id": 1, "result": {"stopReason": "end_turn", "usage": {"inputTokens": 5, "outputTokens": 7}}}"#),
    ]
}

#[test]
fn summaries_count_the_calls() {
    let records = session();
    let m = meta(1);
    let r = result(Outcome::Failure, Some("it\nbroke"));
    let outcome = j(r#"{"tests": [{"command": "git log", "exit_code": 0, "duration_s": 0}, "junk", {"command": ["a", 1]}]}"#);
    let s = summarize(&Inputs {
        records: &records,
        elapsed: &elapsed(&records),
        result: Some(&r),
        meta: &m,
        outcome: &outcome,
        usage_log: None,
        aic: &j("12.5"),
    });
    assert_eq!(s.at("schema").as_str(), Some(SCHEMA));
    assert_eq!(s.at("result").as_str(), Some("failure"));
    assert_eq!(s.at("stop_reason").as_str(), Some("end_turn"));
    assert_eq!(s.at("acp_protocol").as_u64(), Some(1));
    assert_eq!(s.at("agent_version").as_str(), Some("a"));
    assert_eq!(s.at("aic").to_text(), "12.5");
    assert_eq!(
        s.at("tools").to_text(),
        r#"{"Bash":{"calls":1,"errors":1,"duration_s":7},"Read":{"calls":2,"errors":0,"duration_s":6},"Web":{"calls":1,"errors":0,"duration_s":0}}"#
    );
    // The slowest first; those that took as long in their order.
    assert_eq!(
        s.at("slowest").to_text(),
        r#"[{"tool":"Bash","summary":"false","duration_s":7},{"tool":"Read","summary":"x","duration_s":3},{"tool":"Read","summary":"y","duration_s":3}]"#
    );
    assert_eq!(
        s.at("failures").to_text(),
        r#"[{"kind":"tool_error","message":"Bash: boom"},{"kind":"agent_exit","message":"it broke"}]"#
    );
    assert_eq!(
        s.at("tests").to_text(),
        r#"[{"command":"git log","exit_code":0,"duration_s":0},{"command":"[\"a\",1]","exit_code":null,"duration_s":null}]"#
    );
    assert_eq!(
        s.at("tokens").to_text(),
        r#"{"input":5,"output":7,"cache_read":null,"cache_write":null}"#
    );
    assert_eq!(s.at("permissions").to_text(), r#"{"allowed":0,"denied":[]}"#);
    assert_eq!(s.at("outcome").to_text(), r#"{"status":null,"url":null,"why":null}"#);
    for k in [
        "run_id", "run_attempt", "run_url", "item", "repo", "base", "workflow", "agent", "cores",
        "started_at", "finished_at", "duration_s", "aic_budget", "aic_pricing", "files",
        "egress_denied", "redactions",
    ] {
        assert!(s.get(k).is_some(), "{k}");
        assert_eq!(s.at(k).to_text(), m.at(k).to_text(), "{k}");
    }
}

#[test]
fn outcomes_are_failures_but_for_success() {
    let m = meta(0);
    for (o, message, want) in [
        (Outcome::Success, None, "[]"),
        (Outcome::Timeout, None, r#"[{"kind":"timeout","message":"the agent hit the timeout"}]"#),
        (Outcome::Budget, None, r#"[{"kind":"budget","message":"the agent went over budget"}]"#),
        (Outcome::Cancelled, None, r#"[{"kind":"agent_exit","message":"the agent failed"}]"#),
        (Outcome::Budget, Some("why"), r#"[{"kind":"budget","message":"why"}]"#),
    ] {
        let r = result(o, message);
        let s = summarize(&Inputs {
            records: &vec![],
            elapsed: &vec![],
            result: Some(&r),
            meta: &m,
            outcome: &j("{}"),
            usage_log: Some(&vec![]),
            aic: &Json::Null,
        });
        assert_eq!(s.at("failures").to_text(), want);
        assert_eq!(s.at("result").as_str(), Some(o.as_str()));
    }
}

#[test]
fn at_most_ten_of_the_slowest() {
    let mut records = Vec::new();
    for i in 0..12 {
        records.push(update(0.0, &format!(r#"{{"sessionUpdate": "tool_call", "toolCallId": "{i}", "title": "T{i}"}}"#)));
    }
    for i in 0..12 {
        records.push(update(
            ((i * 5) % 12) as f64,
            &format!(r#"{{"sessionUpdate": "tool_call_update", "toolCallId": "{i}", "status": "completed"}}"#),
        ));
    }
    let m = meta(0);
    let s = summarize(&Inputs {
        records: &records,
        elapsed: &elapsed(&records),
        result: None,
        meta: &m,
        outcome: &j("{}"),
        usage_log: None,
        aic: &Json::Null,
    });
    let slowest: Vec<u64> = s
        .at("slowest")
        .as_array()
        .unwrap()
        .iter()
        .map(|c| c.at("duration_s").as_u64().unwrap())
        .collect();
    assert_eq!(slowest, [11, 10, 9, 8, 7, 6, 5, 4, 3, 2]);
}

#[test]
fn sums_that_do_not_fit_are_told() {
    let log = vec![
        j(r#"{"output_tokens": 18446744073709551615}"#),
        j(r#"{"output_tokens": 1}"#),
    ];
    let m = meta(0);
    let none = j("{}");
    let i = Inputs {
        records: &vec![],
        elapsed: &vec![],
        result: None,
        meta: &m,
        outcome: &none,
        usage_log: Some(&log),
        aic: &Json::Null,
    };
    assert!(!can_summarize(&i));
    // Every record has its seconds.
    let records = session();
    let i = Inputs {
        records: &records,
        usage_log: None,
        ..i
    };
    assert!(!can_summarize(&i));
    let times = elapsed(&records);
    assert!(can_summarize(&Inputs {
        elapsed: &times,
        ..i
    }));
}

#[test]
fn seconds_are_summed_by_tool() {
    let m = meta(0);
    let none = j("{}");
    for (other, fits) in [("B", true), ("A", false)] {
        let records = vec![
            update(0.0, r#"{"sessionUpdate": "tool_call", "toolCallId": "1", "name": "A"}"#),
            update(0.0, &format!(r#"{{"sessionUpdate": "tool_call", "toolCallId": "2", "name": "{other}"}}"#)),
            update(1e300, r#"{"sessionUpdate": "tool_call_update", "toolCallId": "1", "status": "completed"}"#),
            update(1e300, r#"{"sessionUpdate": "tool_call_update", "toolCallId": "2", "status": "completed"}"#),
        ];
        let times = elapsed(&records);
        assert_eq!(times, [0, 0, u64::MAX, u64::MAX]);
        let i = Inputs {
            records: &records,
            elapsed: &times,
            result: None,
            meta: &m,
            outcome: &none,
            usage_log: None,
            aic: &Json::Null,
        };
        assert_eq!(can_summarize(&i), fits);
        if fits {
            assert_eq!(
                summarize(&i).at("tools").to_text(),
                r#"{"A":{"calls":1,"errors":0,"duration_s":18446744073709551615},"B":{"calls":1,"errors":0,"duration_s":18446744073709551615}}"#
            );
        }
    }
}

#[test]
fn replaying_is_following() {
    let records = session();
    let elapsed: Vec<u64> = vec![0; records.len()];
    let d = replay(&records, &elapsed);
    let mut live = Digest::new();
    for r in &records {
        if let Some(msg) = &r.msg {
            live.feed(r.ts, 0, r.dir, msg);
        }
    }
    live.finish();
    assert_eq!(d.calls.len(), live.calls.len());
    for (a, b) in d.calls.iter().zip(&live.calls) {
        assert_eq!((&a.id, a.start, a.end, a.error), (&b.id, b.start, b.end, b.error));
    }
    // What the calls took doesn't change when they started.
    let starts = call_starts(&records);
    assert_eq!(starts[8], Some(1.0f64.to_bits()));
    assert_eq!(starts[4], None);
    assert_eq!(starts[2], None);
}

#[test]
fn inputs_that_are_not_json_are_skipped() {
    let lines: Vec<String> = ["{\"a\": 1}", "oops", "[]", ""].iter().map(|s| s.to_string()).collect();
    let read: Vec<String> = read_jsonl(&lines).iter().map(|v| v.to_text()).collect();
    assert_eq!(read, [r#"{"a":1}"#, "[]"]);
    assert_eq!(outcome_or_none(Some(j("[1]"))).to_text(), "{}");
    assert_eq!(outcome_or_none(Some(j(r#"{"x":1}"#))).to_text(), r#"{"x":1}"#);
    assert_eq!(outcome_or_none(None).to_text(), "{}");
    assert_eq!(
        acp_usage(&Json::Null).to_text(),
        r#"{"input":null,"output":null,"cache_read":null,"cache_write":null}"#
    );
}

#[test]
fn calls_are_those_announced() {
    let mut records = session();
    let calls = replay(&records, &vec![0; records.len()]).calls;
    let ids: Vec<String> = calls.iter().map(|c| c.id.clone()).collect();
    // However often a call is announced, it is there once.
    records.extend(session());
    let again = replay(&records, &vec![0; records.len()]).calls;
    let again: Vec<String> = again.iter().map(|c| c.id.clone()).collect();
    assert_eq!(again, ids);
    assert!(!ids.is_empty());
}
