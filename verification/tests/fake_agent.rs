use bot_harness::fake_agent::{
    after_answer, call_id, done, executed, fill, flood_step, fs_requests, grace_calls, granted,
    in_progress, is_answer, late_call, message_chunk, model_options, no_answer, not_executed,
    parse_mode, permission_params, play, read_file, refused, serve, stop_reason, text_content,
    turn_over, turn_step, update_message, wrote_file, CallStep, Conn, Mode, Play, Served, Step,
    TurnStep, Work,
};
use bot_harness::json::Json;
use bot_harness::policy::{pick_option, Decision};

fn j(text: &str) -> Json {
    Json::parse(text).unwrap()
}

#[test]
fn modes() {
    let args = |v: &[&str]| v.iter().map(|s| s.to_string()).collect::<Vec<_>>();
    for (argv, ok) in [
        (&["demo"][..], true),
        (&["fs"], true),
        (&["flood", "3"], true),
        (&["flood", "x"], false),
        (&["script"], false),
        (&["nope"], false),
        (&[], false),
    ] {
        assert_eq!(parse_mode(&args(argv)).is_ok(), ok, "{argv:?}");
    }
    assert!(matches!(parse_mode(&args(&["script", "f"])), Ok(Mode::Script(f)) if f == "f"));
    assert!(matches!(parse_mode(&args(&["flood", "+3"])), Ok(Mode::Flood(3))));
    assert!(matches!(parse_mode(&args(&["grace"])), Ok(Mode::Grace)));
    assert!(matches!(parse_mode(&args(&["slow-init"])), Ok(Mode::SlowInit)));
    for (n, why) in [
        ("x", "invalid digit found in string"),
        ("", "cannot parse integer from empty string"),
        ("99999999999999999999", "number too large to fit in target type"),
    ] {
        assert_eq!(
            parse_mode(&args(&["flood", n])).unwrap_err(),
            format!("flood: bad count {n}: {why}")
        );
    }
    assert_eq!(
        parse_mode(&args(&["fs", "x"])).unwrap_err(),
        "usage: fake-acp-agent demo | script FILE | fs | flood N | grace | slow-init"
    );
}

fn served(msg: &str, slow: bool) -> (Served, Conn, String) {
    let mut conn = Conn::new();
    conn.cancelled = true;
    let mut cwd = ".".to_owned();
    let r = serve(&mut conn, &mut cwd, &j(msg), slow, "1.2");
    (r, conn, cwd)
}

fn sent(msg: &str) -> String {
    match served(msg, false).0 {
        Served::Send(m) => m.to_text(),
        other => panic!("{other:?}"),
    }
}

#[test]
fn requests_are_served() {
    assert_eq!(
        sent(r#"{"id": 1, "method": "initialize"}"#),
        r#"{"jsonrpc":"2.0","id":1,"result":{"protocolVersion":1,"agentInfo":{"name":"fake-acp-agent","version":"1.2"}}}"#
    );
    assert_eq!(
        sent(r#"{"id": "a", "method": "session/set_config_option", "params": {"value": "m"}}"#),
        format!(
            r#"{{"jsonrpc":"2.0","id":"a","result":{{"configOptions":{}}}}}"#,
            model_options("m").to_text()
        )
    );
    assert_eq!(
        sent(r#"{"id": 3, "method": "x/y"}"#),
        r#"{"jsonrpc":"2.0","id":3,"error":{"code":-32601,"message":"fake-acp-agent doesn't handle x/y"}}"#
    );
    let (r, conn, cwd) = served(r#"{"id": 2, "method": "session/new", "params": {"cwd": "/w"}}"#, false);
    assert!(matches!(r, Served::Send(m) if m.at("result").at("sessionId").as_str() == Some("fake-session")));
    assert_eq!((cwd.as_str(), conn.cancelled), ("/w", true));
    let (r, conn, cwd) = served(r#"{"id": 9, "method": "session/prompt"}"#, false);
    assert!(matches!(r, Served::Prompt(id) if id.as_u64() == Some(9)));
    assert_eq!((cwd.as_str(), conn.cancelled), (".", false));
    for (msg, slow) in [
        (r#"{"id": 1, "method": "initialize"}"#, true),
        (r#"{"method": "session/cancel"}"#, false),
        (r#"{"id": 1, "result": {}}"#, false),
        ("7", false),
    ] {
        assert!(matches!(served(msg, slow).0, Served::Nothing), "{msg}");
    }
    assert_eq!(
        model_options("x").to_text(),
        r#"[{"id":"model","name":"Model","category":"model","type":"select","currentValue":"x","options":[{"value":"x","name":"x"}]}]"#
    );
}

#[test]
fn answers_are_told_from_other_messages() {
    let mut conn = Conn::new();
    let (id, msg) = conn.request("m/n", j(r#"{"a":1}"#));
    assert_eq!((id, conn.next_id), (1, 2));
    assert_eq!(msg.to_text(), r#"{"jsonrpc":"2.0","id":1,"method":"m/n","params":{"a":1}}"#);
    for (msg, want) in [
        (r#"{"id": 1, "result": 2}"#, true),
        (r#"{"id": 1, "error": {}}"#, true),
        (r#"{"id": 2, "result": 2}"#, false),
        (r#"{"id": "1", "result": 2}"#, false),
        (r#"{"id": 1, "method": "x"}"#, false),
        (r#"{"id": 1, "method": null}"#, false),
        ("1", false),
    ] {
        assert_eq!(is_answer(&j(msg), 1), want, "{msg}");
    }
    assert_eq!(no_answer("m/n", 1), "no response to m/n (request 1)");
    conn.heard(&j(r#"{"method": "other"}"#));
    assert!(!conn.cancelled);
    conn.heard(&j(r#"{"method": "session/cancel"}"#));
    conn.heard(&j(r#"{"id": 4, "result": null}"#));
    assert!(conn.cancelled);
}

#[test]
fn texts_are_filled_in() {
    for text in ["", "{cwd}", "a{cwd}b{home}{cwd}", "{home", "{{cwd}}", "{cw{cwd}d}"] {
        let want = text.replace("{cwd}", "/w{home}").replace("{home}", "/h");
        assert_eq!(fill(text, "/w{home}", "/h"), want, "{text:?}");
    }
}

#[test]
fn steps_are_played() {
    let update = |p: Play| match p {
        Play::Update(u) => u.to_text(),
        other => panic!("{other:?}"),
    };
    assert_eq!(
        update(play(&Step::Say("hi {cwd}".into()), "c", "/w", "/h")),
        r#"{"sessionUpdate":"agent_message_chunk","content":{"type":"text","text":"hi {cwd}"}}"#
    );
    assert_eq!(
        update(play(&Step::Cost { usd: j("0.01") }, "c", "/w", "/h")),
        r#"{"sessionUpdate":"usage_update","used":0,"size":0,"cost":{"amount":0.01,"currency":"USD"}}"#
    );
    let step = Step::Execute {
        title: "Bash".into(),
        command: "ls {cwd}".into(),
    };
    match play(&step, "c", "/w", "/h") {
        Play::Call(announce, call, Work::Execute(command)) => {
            assert_eq!(command, "ls /w");
            assert_eq!(
                call.to_text(),
                r#"{"toolCallId":"c","title":"Bash","kind":"execute","rawInput":{"command":"ls /w"}}"#
            );
            assert_eq!(
                announce.to_text(),
                r#"{"toolCallId":"c","title":"Bash","kind":"execute","rawInput":{"command":"ls /w"},"sessionUpdate":"tool_call","status":"pending"}"#
            );
        }
        other => panic!("{other:?}"),
    }
    let step = Step::Read {
        title: "Read".into(),
        path: "{home}/x".into(),
        lines: Some(5),
    };
    match play(&step, "c", "/w", "/h") {
        Play::Call(_, call, Work::Read(path, Some(5))) => {
            assert_eq!(path, "/h/x");
            assert_eq!(call.at("rawInput").to_text(), r#"{"path":"/h/x","lines":5}"#);
        }
        other => panic!("{other:?}"),
    }
    let step = Step::Write {
        title: "Write".into(),
        path: "{cwd}/x".into(),
        content: "{home}".into(),
    };
    match play(&step, "c", "/w", "/h") {
        Play::Call(_, call, Work::Write(path, content)) => {
            assert_eq!((path.as_str(), content.as_str()), ("/w/x", "/h"));
            assert_eq!(call.at("kind").as_str(), Some("edit"));
        }
        other => panic!("{other:?}"),
    }
    assert_eq!(call_id(12), "call-12");
}

#[test]
fn turns_stop_when_cancelled() {
    assert_eq!(turn_step(false, 0, 2), TurnStep::Play(0));
    assert_eq!(turn_step(true, 0, 2), TurnStep::Stop(true));
    assert_eq!(turn_step(false, 2, 2), TurnStep::Stop(false));
    assert_eq!((stop_reason(true), stop_reason(false)), ("cancelled", "end_turn"));
    assert_eq!(
        turn_over(&j("4"), "end_turn").to_text(),
        r#"{"jsonrpc":"2.0","id":4,"result":{"stopReason":"end_turn"}}"#
    );
}

#[test]
fn permission_is_granted_by_the_allow_option() {
    let params = permission_params(j(r#"{"toolCallId":"c"}"#));
    assert_eq!(
        params.to_text(),
        r#"{"sessionId":"fake-session","toolCall":{"toolCallId":"c"},"options":[{"optionId":"allow","name":"Allow","kind":"allow_once"},{"optionId":"reject","name":"Reject","kind":"reject_once"}]}"#
    );
    for (outcome, want) in [
        (r#"{"outcome": "selected", "optionId": "allow"}"#, true),
        (r#"{"outcome": "selected", "optionId": "reject"}"#, false),
        (r#"{"outcome": "cancelled", "optionId": "allow"}"#, false),
        (r#"{"outcome": "cancelled"}"#, false),
    ] {
        let answer = j(&format!(r#"{{"id": 1, "result": {{"outcome": {outcome}}}}}"#));
        assert_eq!(granted(&answer), want, "{outcome}");
    }
    assert!(!granted(&j(r#"{"error": {}}"#)));
}

#[test]
fn work_has_results() {
    let out = |s: &str| s.as_bytes().to_vec();
    let ok = executed(Some(0), &out("a"), &out("b"));
    assert_eq!((ok.ok, ok.text.as_str()), (true, "ab"));
    assert_eq!(ok.raw_output.to_text(), r#"{"exit_code":0}"#);
    let bad = executed(None, &vec![b'a', 0xff], &out("b"));
    assert_eq!((bad.ok, bad.text.as_str()), (false, "ba\u{fffd}"));
    assert_eq!(bad.raw_output.to_text(), r#"{"exit_code":-1}"#);
    assert_eq!(not_executed("gone").text, "running sh: gone");
    let text = "1\r\n2\n3\n";
    assert_eq!(read_file("/x", Some(2), Ok(text)).text, "1\n2");
    assert_eq!(read_file("/x", Some(9), Ok(text)).text, "1\n2\n3");
    assert_eq!(read_file("/x", None, Ok(text)).text, "1\n2\n3");
    let e = read_file("/x", None, Err("gone"));
    assert_eq!((e.ok, e.text.as_str()), (false, "reading /x: gone"));
    assert_eq!(wrote_file("/x", None).text, "wrote /x");
    assert_eq!(wrote_file("/x", Some("full")).text, "writing /x: full");
    assert_eq!(
        done("c", wrote_file("/x", None)).to_text(),
        format!(
            r#"{{"sessionUpdate":"tool_call_update","toolCallId":"c","status":"completed","content":{}}}"#,
            text_content("wrote /x").to_text()
        )
    );
    assert_eq!(
        done("c", executed(Some(2), &vec![], &vec![])).to_text(),
        r#"{"sessionUpdate":"tool_call_update","toolCallId":"c","status":"failed","content":[{"type":"content","content":{"type":"text","text":""}}],"rawOutput":{"exit_code":2}}"#
    );
    assert_eq!(
        in_progress("c").to_text(),
        r#"{"sessionUpdate":"tool_call_update","toolCallId":"c","status":"in_progress"}"#
    );
    assert_eq!(refused("c").at("status").as_str(), Some("failed"));
    assert_eq!(
        refused("c").at("content").to_text(),
        text_content("The client refused permission").to_text()
    );
}

#[test]
fn misbehaviour_is_scripted() {
    let requests: Vec<String> = fs_requests()
        .iter()
        .map(|(m, p)| format!("{m} {}", p.to_text()))
        .collect();
    assert_eq!(
        requests,
        [
            r#"fs/read_text_file {"sessionId":"fake-session","path":"/etc/passwd"}"#,
            r#"terminal/create {"sessionId":"fake-session","command":"id"}"#,
            r#"fs/read_text_file {"path":"/etc/passwd"}"#,
        ]
    );
    assert_eq!(
        grace_calls()
            .iter()
            .map(|c| c.at("toolCallId").to_text())
            .collect::<Vec<_>>(),
        [r#""t0""#, r#""t1""#, r#""t2""#]
    );
    assert_eq!(
        grace_calls()[2].to_text(),
        r#"{"sessionUpdate":"tool_call","toolCallId":"t2","title":"Bash","kind":"execute","status":"pending","rawInput":{"command":"true"}}"#
    );
    assert_eq!(
        late_call().to_text(),
        r#"{"toolCallId":"t2","kind":"execute","rawInput":{"command":"true"}}"#
    );
    assert_eq!(
        update_message(message_chunk("x")).to_text(),
        r#"{"jsonrpc":"2.0","method":"session/update","params":{"sessionId":"fake-session","update":{"sessionUpdate":"agent_message_chunk","content":{"type":"text","text":"x"}}}}"#
    );
}

#[test]
fn policies_decide_over_the_agent() {
    let params = permission_params(late_call());
    for (decision, id) in [(Decision::Allow, "allow"), (Decision::Deny, "reject")] {
        let picked = pick_option(params.at("options"), decision);
        assert_eq!(picked, Some((id.to_owned(), decision)));
        let answer = j(&format!(
            r#"{{"result": {{"outcome": {{"outcome": "selected", "optionId": "{id}"}}}}}}"#
        ));
        assert_eq!(granted(&answer), decision == Decision::Allow);
    }
}

#[test]
fn refused_calls_do_no_work() {
    let work = || Work::Write("/x".into(), "y".into());
    for answer in [
        "{}",
        r#"{"result": {"outcome": {"outcome": "cancelled"}}}"#,
        r#"{"result": {"outcome": {"outcome": "selected", "optionId": "reject"}}}"#,
        r#"{"error": {"message": "no"}}"#,
    ] {
        match after_answer("c", &j(answer), work()) {
            CallStep::Refuse(update) => assert_eq!(
                update.to_text(),
                r#"{"sessionUpdate":"tool_call_update","toolCallId":"c","status":"failed","content":[{"type":"content","content":{"type":"text","text":"The client refused permission"}}]}"#
            ),
            other => panic!("{answer}: {other:?}"),
        }
    }
    let allowed = j(r#"{"result": {"outcome": {"outcome": "selected", "optionId": "allow"}}}"#);
    match after_answer("c", &allowed, work()) {
        CallStep::Go(update, Work::Write(path, content)) => {
            assert_eq!(update.to_text(), in_progress("c").to_text());
            assert_eq!((path.as_str(), content.as_str()), ("/x", "y"));
        }
        other => panic!("{other:?}"),
    }
}

#[test]
fn floods_end() {
    let mut sent = 0;
    while let Some(chunk) = flood_step(sent, 3) {
        assert_eq!(chunk.to_text(), message_chunk(&"x".repeat(1000)).to_text());
        sent += 1;
    }
    assert_eq!(sent, 3);
    assert!(flood_step(0, 0).is_none());
    assert!(flood_step(4, 3).is_none());
}
