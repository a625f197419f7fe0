use bot_harness::digest::{Digest, Dir};
use bot_harness::json::Json;
use bot_harness::message::MessageLine;
use bot_harness::text::{cut, MAX_TEXT};

fn j(text: &str) -> Json {
    Json::parse(text).unwrap()
}

/// Feeds a message at the time TS, in seconds.
fn feed(d: &mut Digest, ts: f64, dir: Dir, msg: &Json) -> Vec<String> {
    let elapsed = match d.started(msg) {
        Some(start) => (ts - f64::from_bits(start)).max(0.0).floor() as u64,
        None => 0,
    };
    d.feed(ts.to_bits(), elapsed, dir, msg)
}

/// A session as the lines it logs, from (dir, message) pairs one
/// second apart.
fn lines(msgs: &[(Dir, Json)]) -> (Digest, Vec<String>) {
    let mut d = Digest::new();
    let mut out = Vec::new();
    for (i, (dir, m)) in msgs.iter().enumerate() {
        out.extend(feed(&mut d, i as f64, *dir, m));
    }
    out.extend(d.finish());
    (d, out)
}

fn update(u: &str) -> (Dir, Json) {
    (
        Dir::Recv,
        j(&format!(
            r#"{{"jsonrpc": "2.0", "method": "session/update", "params": {{"sessionId": "s", "update": {u}}}}}"#
        )),
    )
}

fn usd(d: &Digest) -> Option<f64> {
    d.cost_usd.as_ref().map(|n| n.as_text().parse().unwrap())
}

#[test]
fn session() {
    let (d, out) = lines(&[
        (
            Dir::Send,
            j(r#"{"jsonrpc": "2.0", "id": 0, "method": "initialize", "params": {}}"#),
        ),
        (
            Dir::Recv,
            j(r#"{"jsonrpc": "2.0", "id": 0, "result": {"protocolVersion": 1, "agentInfo": {"name": "a", "version": "1.0"}}}"#),
        ),
        (
            Dir::Send,
            j(r#"{"jsonrpc": "2.0", "id": 1, "method": "session/new", "params": {"cwd": "/w/r", "mcpServers": []}}"#),
        ),
        (
            Dir::Recv,
            j(r#"{"jsonrpc": "2.0", "id": 1, "result": {"sessionId": "s", "models": {"currentModelId": "m1"}}}"#),
        ),
        (
            Dir::Send,
            j(r#"{"jsonrpc": "2.0", "id": 2, "method": "session/prompt", "params": {}}"#),
        ),
        update(
            r#"{"sessionUpdate": "agent_message_chunk", "content": {"type": "text", "text": "Hello "}}"#,
        ),
        update(
            r#"{"sessionUpdate": "agent_message_chunk", "content": {"type": "text", "text": "there\nsecond line"}}"#,
        ),
        update(
            r#"{"sessionUpdate": "tool_call", "toolCallId": "t1", "title": "Terminal", "kind": "execute", "status": "pending", "_meta": {"claudeCode": {"toolName": "Bash"}}}"#,
        ),
        update(
            r#"{"sessionUpdate": "tool_call_update", "toolCallId": "t1", "rawInput": {"command": "cargo test\n--all"}}"#,
        ),
        update(
            r#"{"sessionUpdate": "tool_call_update", "toolCallId": "t1", "status": "completed", "content": [{"type": "content", "content": {"type": "text", "text": "ok"}}]}"#,
        ),
        update(
            r#"{"sessionUpdate": "tool_call", "toolCallId": "t2", "title": "Write", "kind": "edit", "status": "in_progress", "rawInput": {"file_path": "/w/r/src/x.rs"}}"#,
        ),
        update(
            r#"{"sessionUpdate": "tool_call_update", "toolCallId": "t2", "status": "completed"}"#,
        ),
        update(
            r#"{"sessionUpdate": "tool_call", "toolCallId": "t3", "title": "`sudo -n true`", "kind": "execute", "status": "pending", "rawInput": {"command": "sudo -n true"}, "_meta": {"claudeCode": {"toolName": "Bash"}}}"#,
        ),
        update(
            r#"{"sessionUpdate": "tool_call_update", "toolCallId": "t3", "status": "failed", "content": [{"type": "content", "content": {"type": "text", "text": "Exit code 1\nsudo: a password is required"}}]}"#,
        ),
        // A permission request, denied by a rule.
        (
            Dir::Recv,
            j(r#"{"jsonrpc": "2.0", "id": 7, "method": "session/request_permission", "params": {"sessionId": "s", "toolCall": {"toolCallId": "t4", "title": "git push", "kind": "execute", "rawInput": {"command": "git push"}}, "options": [{"optionId": "y", "name": "Yes", "kind": "allow_once"}, {"optionId": "n", "name": "No", "kind": "reject_once"}]}}"#),
        ),
        (
            Dir::Send,
            j(r#"{"jsonrpc": "2.0", "id": 7, "result": {"outcome": {"outcome": "selected", "optionId": "n"}, "_meta": {"botHarness": {"decision": "deny", "rule": "no-push"}}}}"#),
        ),
        (
            Dir::Recv,
            j(r#"{"jsonrpc": "2.0", "id": 8, "method": "session/request_permission", "params": {"sessionId": "s", "toolCall": {"toolCallId": "t5", "title": "ls", "kind": "execute"}, "options": [{"optionId": "y", "name": "Yes", "kind": "allow_once"}]}}"#),
        ),
        (
            Dir::Send,
            j(r#"{"jsonrpc": "2.0", "id": 8, "result": {"outcome": {"outcome": "selected", "optionId": "y"}}}"#),
        ),
        // opencode's shape: the name as the first title, the exit
        // status in rawOutput.
        update(
            r#"{"sessionUpdate": "tool_call", "toolCallId": "t6", "title": "bash", "kind": "execute", "status": "pending"}"#,
        ),
        update(
            r#"{"sessionUpdate": "tool_call_update", "toolCallId": "t6", "status": "completed", "title": "false", "rawInput": {"command": "false"}, "rawOutput": {"output": "", "metadata": {"exit": 1}}}"#,
        ),
        update(
            r#"{"sessionUpdate": "usage_update", "used": 10, "size": 100, "cost": {"amount": 0.25, "currency": "USD"}}"#,
        ),
        update(
            r#"{"sessionUpdate": "agent_message_chunk", "content": {"type": "text", "text": "Done."}}"#,
        ),
        (
            Dir::Recv,
            j(r#"{"jsonrpc": "2.0", "id": 2, "result": {"stopReason": "end_turn", "usage": {"inputTokens": 5, "outputTokens": 7}}}"#),
        ),
    ]);
    assert_eq!(
        out,
        [
            "start: a 1.0, m1, in /w/r",
            "» Hello there",
            "▶ Bash: cargo test (ok, 2s)",
            "✎ Write src/x.rs",
            "▶ Bash: sudo -n true (exit 1, 1s)",
            "⚠ tool error: Bash: sudo: a password is required",
            "⛔ denied execute: git push (rule no-push)",
            "▶ bash: false (exit 1, 1s)",
            "⚠ tool error: bash: ",
            "» Done.",
            "done: end_turn, 4 tool calls",
        ]
    );
    assert_eq!(d.agent.as_deref(), Some("a 1.0"));
    assert_eq!(d.protocol_version, Some(1));
    assert_eq!(d.model.as_deref(), Some("m1"));
    assert_eq!(d.stop_reason.as_deref(), Some("end_turn"));
    assert_eq!(usd(&d), Some(0.25));
    assert_eq!(
        d.usage.as_ref().unwrap().to_text(),
        r#"{"inputTokens":5,"outputTokens":7}"#
    );
    assert_eq!((d.allowed, d.denied.len()), (1, 1));
    assert_eq!(d.denied[0].rule.as_deref(), Some("no-push"));
    let calls: Vec<_> = d
        .calls
        .iter()
        .map(|c| (c.display_name(), c.summary.as_str(), c.duration_s, c.error))
        .collect();
    assert_eq!(
        calls,
        [
            ("Bash".into(), "cargo test", Some(2), Some(false)),
            ("Write".into(), "src/x.rs", Some(1), Some(false)),
            ("Bash".into(), "sudo -n true", Some(1), Some(true)),
            ("bash".into(), "false", Some(1), Some(true)),
        ]
    );
}

#[test]
fn errors_and_cancel() {
    let (d, out) = lines(&[
        (
            Dir::Send,
            j(r#"{"jsonrpc": "2.0", "id": 0, "method": "session/prompt", "params": {}}"#),
        ),
        update(
            r#"{"sessionUpdate": "tool_call", "toolCallId": "t1", "title": "sleep", "kind": "execute", "status": "in_progress"}"#,
        ),
        (
            Dir::Send,
            j(r#"{"jsonrpc": "2.0", "method": "session/cancel", "params": {"sessionId": "s"}}"#),
        ),
        (
            Dir::Recv,
            j(r#"{"jsonrpc": "2.0", "id": 0, "error": {"code": -32603, "message": "Internal error\nat foo"}}"#),
        ),
    ]);
    assert_eq!(
        out,
        [
            "⚠ cancelling the session",
            "⚠ session/prompt failed: Internal error at foo"
        ]
    );
    assert_eq!(
        d.error.as_deref(),
        Some("session/prompt failed: Internal error at foo")
    );
    assert_eq!(d.calls[0].end, None);
}

#[test]
fn message_first_line() {
    let long = "y".repeat(5 * MAX_TEXT);
    let cases: [(&[&str], Option<String>); 5] = [
        (&["Hello ", "there\nsecond"], Some("» Hello there".into())),
        (
            &["\n  \n", "", "first", " line\n", "more\n"],
            Some("» first line".into()),
        ),
        (&["   ", "\n"], None),
        (&[], None),
        (&[&long, "\nmore"], Some(cut(&format!("» {long}")))),
    ];
    for (chunks, want) in cases {
        let mut m = MessageLine::new();
        for c in chunks {
            m.push(c);
        }
        assert!(m.line.len() <= MAX_TEXT + 1, "{chunks:?}");
        let mut d = Digest::new();
        d.text = m;
        assert_eq!(
            d.finish(),
            want.into_iter().collect::<Vec<_>>(),
            "{chunks:?}"
        );
    }
    // However much comes after the first line, nothing more is kept.
    let mut m = MessageLine::new();
    m.push("first\n");
    for _ in 0..1000 {
        m.push(&long);
    }
    let line: String = m.line.iter().collect();
    assert_eq!((line.as_str(), m.done), ("first", true));
}

#[test]
fn cost_currency() {
    for (cost, want) in [
        (r#"{"amount": 0.5, "currency": "USD"}"#, Some(0.5)),
        (r#"{"amount": 0.5}"#, Some(0.5)),
        (r#"{"amount": 0.5, "currency": "EUR"}"#, None),
    ] {
        let (d, _) = lines(&[update(&format!(
            r#"{{"sessionUpdate": "usage_update", "used": 1, "size": 2, "cost": {cost}}}"#
        ))]);
        assert_eq!(usd(&d), want, "{cost}");
    }
}

#[test]
fn usd_in_any_case_counts() {
    for (cost, want) in [
        (r#"{"amount": 2, "currency": "usd"}"#, Some(2.0)),
        (r#"{"amount": -1e3, "currency": null}"#, Some(-1000.0)),
        (r#"{"amount": "2", "currency": "USD"}"#, None),
        (r#"{"currency": "USD"}"#, None),
        (r#"{"amount": 2, "currency": "USDC"}"#, None),
    ] {
        let (d, _) = lines(&[update(&format!(
            r#"{{"sessionUpdate": "usage_update", "cost": {cost}}}"#
        ))]);
        assert_eq!(usd(&d), want, "{cost}");
    }
}

#[test]
fn no_message_starts_a_line_of_the_log() {
    let nasty = r#"a\n::error::x\r\u0085\u001b[2J"#;
    let (_, out) = lines(&[
        (
            Dir::Send,
            j(&format!(r#"{{"id": "1\n2", "method": "session/new", "params": {{"cwd": "{nasty}"}}}}"#)),
        ),
        (
            Dir::Recv,
            j(&format!(r#"{{"id": "1\n2", "result": {{"models": {{"currentModelId": "{nasty}"}}}}}}"#)),
        ),
        update(&format!(
            r#"{{"sessionUpdate": "tool_call", "toolCallId": "t", "kind": "edit", "name": "{nasty}", "rawInput": {{"path": "{nasty}"}}, "status": "completed"}}"#
        )),
        update(&format!(
            r#"{{"sessionUpdate": "tool_call", "toolCallId": "u", "title": "{nasty}", "status": "failed", "content": [{{"type": "content", "content": {{"type": "text", "text": "{nasty}"}}}}]}}"#
        )),
        update(r#"{"sessionUpdate": "plan", "entries": [1, 2]}"#),
        update(&format!(
            r#"{{"sessionUpdate": "agent_message_chunk", "content": {{"text": "{nasty}"}}}}"#
        )),
    ]);
    assert_eq!(out.len(), 6);
    assert_eq!(out[4], "plan: 2 entries");
    for line in &out {
        assert!(!line.chars().any(char::is_control), "{line:?}");
        assert!(line.chars().count() <= 2 * MAX_TEXT + 3);
    }
}

#[test]
fn ended_calls_stay_ended() {
    let done = r#"{"sessionUpdate": "tool_call_update", "toolCallId": "t", "status": "completed"}"#;
    let failed = r#"{"sessionUpdate": "tool_call_update", "toolCallId": "t", "status": "failed", "title": "later"}"#;
    let start = r#"{"sessionUpdate": "tool_call", "toolCallId": "t", "title": "go"}"#;
    let (d, out) = lines(&[update(start), update(done), update(failed), update(start)]);
    assert_eq!(out, ["▶ go: go (ok, 1s)"]);
    assert_eq!(d.calls.len(), 1);
    assert_eq!(d.calls[0].duration_s, Some(1));
    assert_eq!(d.calls[0].error, Some(false));
    assert_eq!(d.calls[0].start, 0.0f64.to_bits());
    assert_eq!(d.calls[0].end, Some(1.0f64.to_bits()));
    assert_eq!(d.calls[0].title, "go");
}

#[test]
fn responses_without_a_request_change_nothing() {
    let (d, out) = lines(&[
        (Dir::Recv, j(r#"{"id": 3, "error": {"message": "boom"}}"#)),
        (Dir::Send, j(r#"{"id": 3, "result": {"outcome": {"outcome": "cancelled"}}}"#)),
        (Dir::Recv, j(r#"{"id": null, "error": {"message": "boom"}}"#)),
        (Dir::Recv, j("[1, 2]")),
    ]);
    assert_eq!(out, [""; 0]);
    assert_eq!(d.error, None);
    assert_eq!((d.allowed, d.denied.len()), (0, 0));
}

#[test]
fn a_request_is_answered_once() {
    let ask = r#"{"id": 5, "method": "session/request_permission", "params": {"toolCall": {"kind": "fetch", "rawInput": {"url": "http://x"}}, "options": [{"optionId": "y", "kind": "allow_always"}]}}"#;
    let (d, out) = lines(&[
        (Dir::Recv, j(ask)),
        (Dir::Send, j(r#"{"id": 5, "result": {"outcome": {"outcome": "selected", "optionId": "y"}}}"#)),
        (Dir::Send, j(r#"{"id": 5, "result": {"outcome": {"outcome": "cancelled"}}}"#)),
        (Dir::Recv, j(ask)),
        (Dir::Send, j(r#"{"id": 5, "result": {"outcome": {"outcome": "cancelled"}}}"#)),
    ]);
    assert_eq!((d.allowed, d.denied.len()), (1, 1));
    assert_eq!(out, ["⛔ denied fetch: http://x (default)"]);
}

#[test]
fn the_first_error_stays() {
    let (d, out) = lines(&[
        (Dir::Send, j(r#"{"id": 1, "method": "initialize"}"#)),
        (Dir::Recv, j(r#"{"id": 1, "error": {"message": "one"}}"#)),
        (Dir::Send, j(r#"{"id": 2, "method": "x/y"}"#)),
        (Dir::Recv, j(r#"{"id": 2, "error": {}}"#)),
    ]);
    assert_eq!(out, ["⚠ initialize failed: one", "⚠ x/y failed: unknown error"]);
    assert_eq!(d.error.as_deref(), Some("initialize failed: one"));
}

#[test]
fn chunks_do_not_matter() {
    let text = "\n \nfirst line\nsecond";
    let chars: Vec<char> = text.chars().collect();
    for at in 0..=chars.len() {
        let mut m = MessageLine::new();
        m.push(&chars[..at].iter().collect::<String>());
        m.push(&chars[at..].iter().collect::<String>());
        assert_eq!(m.line.iter().collect::<String>(), "first line");
        assert!(m.done);
    }
}

#[test]
fn lines_that_start_blank_are_kept() {
    // A line is blank only where all of it is, however little of it is kept.
    let blanks = " ".repeat(MAX_TEXT + 1);
    let mut m = MessageLine::new();
    m.push(&format!("{blanks}x\nsecond"));
    assert_eq!(m.line.iter().collect::<String>(), blanks);
    assert!(m.said && m.done);
    let mut d = Digest::new();
    d.text = m;
    assert_eq!(d.finish(), [cut(&format!("» {blanks}x"))]);
    // Where it ends without anything else, the next line counts.
    let mut m = MessageLine::new();
    m.push(&format!("{blanks}{blanks}\nsecond"));
    assert_eq!(m.line.iter().collect::<String>(), "second");
    assert!(m.said && !m.done);
}

#[test]
fn responses_that_come_again_change_nothing() {
    let answer = j(
        r#"{"id": 7, "result": {"outcome": {"outcome": "selected", "optionId": "a"}, "_meta": {"decision": "allow"}}}"#,
    );
    let failed = j(r#"{"id": 1, "error": {"message": "one"}}"#);
    let (mut d, _) = lines(&[
        (Dir::Send, j(r#"{"id": 1, "method": "initialize"}"#)),
        (Dir::Recv, j(r#"{"id": 7, "method": "session/request_permission", "params": {}}"#)),
    ]);
    feed(&mut d, 2.0, Dir::Send, &answer);
    feed(&mut d, 3.0, Dir::Recv, &failed);
    let before = format!("{d:?}");
    assert_eq!(d.allowed + d.denied.len() as u64, 1);
    assert_eq!(feed(&mut d, 4.0, Dir::Send, &answer), Vec::<String>::new());
    assert_eq!(feed(&mut d, 5.0, Dir::Recv, &failed), Vec::<String>::new());
    assert_eq!(format!("{d:?}"), before);
}

#[test]
fn every_call_is_there_once() {
    let call = |id: &str, title: &str| {
        update(&format!(
            r#"{{"sessionUpdate": "tool_call", "toolCallId": "{id}", "title": "{title}"}}"#
        ))
    };
    let (d, _) = lines(&[
        call("a", "one"),
        call("b", "two"),
        // Sent again, it changes the call that was seen, and no other.
        call("a", "three"),
        // An update of a call that was never announced adds none.
        update(r#"{"sessionUpdate": "tool_call_update", "toolCallId": "c", "status": "completed"}"#),
        // Neither does one that the harness would send.
        (
            Dir::Send,
            j(r#"{"method": "session/update", "params": {"update": {"sessionUpdate": "tool_call", "toolCallId": "d"}}}"#),
        ),
    ]);
    let calls: Vec<_> = d
        .calls
        .iter()
        .map(|c| (c.id.as_str(), c.title.as_str(), f64::from_bits(c.start)))
        .collect();
    assert_eq!(
        calls,
        [("a", "three", 0.0), ("b", "two", 1.0)]
    );
}
