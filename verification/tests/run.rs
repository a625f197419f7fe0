use bot_harness::digest::Dir;
use bot_harness::json::Json;
use bot_harness::moment::Moment;
use bot_harness::policy::{Decision, Policy, PolicyFile, RuleFile};
use bot_harness::run::{
    answer_permission, prompt_result, reply_to, stop_once, stopped, Action, ConfigOption, Ended,
    Event, Incoming, Limits, NewSession, Outcome, Phase, Record, Reply, RunResult, Session, Stop,
    Tap, EXIT_BUDGET, EXIT_FAILURE, EXIT_TIMEOUT, RESULT_SCHEMA,
};

fn j(text: &str) -> Json {
    Json::parse(text).unwrap()
}

fn limits(max_tool_calls: Option<usize>) -> Limits {
    Limits {
        timeout_s: 60,
        budget_aic: None,
        max_tool_calls,
    }
}

fn tap_line(tap: &mut Tap, dir: Dir, line: &str) -> Vec<String> {
    let record = Record::new(0.0f64.to_bits(), dir, line);
    tap.line(&record, 0)
}

fn started(tap_model: Option<&str>, by_env: bool) -> Session {
    let (mut s, first) = Session::new(
        "/w".into(),
        tap_model.map(str::to_owned),
        by_env,
        "Do it.".into(),
    );
    assert!(matches!(first, Action::Initialize));
    let next = s.next(Event::Initialized(Ok(())));
    assert!(matches!(next, Action::Start(cwd) if cwd == "/w"));
    s
}

fn new_session(options: &[(&str, bool)]) -> NewSession {
    NewSession {
        id: "s1".into(),
        options: options
            .iter()
            .map(|(id, m)| ConfigOption {
                id: id.to_string(),
                selects_model: *m,
            })
            .collect(),
    }
}

#[test]
fn outcomes() {
    for (o, text, exit) in [
        (Outcome::Success, "success", 0),
        (Outcome::Failure, "failure", EXIT_FAILURE),
        (Outcome::Timeout, "timeout", EXIT_TIMEOUT),
        (Outcome::Budget, "budget", EXIT_BUDGET),
        (Outcome::Cancelled, "cancelled", EXIT_FAILURE),
    ] {
        assert_eq!((o.as_str(), o.exit_code()), (text, exit));
    }
    assert_eq!((EXIT_FAILURE, EXIT_BUDGET, EXIT_TIMEOUT), (1, 3, 124));
}

#[test]
fn unadvertised_requests_are_refused() {
    for method in ["fs/read_text_file", "terminal/create", "fs/read_text_file"] {
        match reply_to(Incoming::Request(method.into())) {
            Reply::NotFound(data) => assert_eq!(data, method),
            other => panic!("{other:?}"),
        }
    }
    assert!(matches!(reply_to(Incoming::Notification), Reply::Handled));
    assert!(matches!(reply_to(Incoming::Response), Reply::PassOn));
}

#[test]
fn update_flood() {
    let mut tap = Tap::create(limits(None));
    let chunk = format!(
        r#"{{"jsonrpc":"2.0","method":"session/update","params":{{"sessionId":"s","update":{{"sessionUpdate":"agent_message_chunk","content":{{"type":"text","text":"{}"}}}}}}}}"#,
        "x".repeat(1000)
    );
    for _ in 0..20000 {
        assert!(tap_line(&mut tap, Dir::Recv, &chunk).is_empty());
    }
    assert!(tap.digest.text.line.len() <= 201);
    let (ended, lines) = tap.conclude(Ok(prompt_result(Ok(Some("end_turn".into())))));
    assert_eq!(ended.outcome.as_str(), "success");
    assert_eq!(ended.outcome.exit_code(), 0);
    assert_eq!(lines.len(), 1);
}

#[test]
fn permission_after_cancel() {
    let mut tap = Tap::create(limits(Some(2)));
    let mut session = started(None, false);
    let prompt = session.next(Event::Started(Ok(new_session(&[]))));
    assert!(matches!(prompt, Action::Prompt(sid, text) if sid == "s1" && text == "Do it."));
    let mut stop: Option<Stop> = None;
    for i in 0..3 {
        assert!(tap.over_budget(None).is_none());
        tap_line(
            &mut tap,
            Dir::Recv,
            &format!(
                r#"{{"method":"session/update","params":{{"update":{{"sessionUpdate":"tool_call","toolCallId":"t{i}","title":"Bash","kind":"execute","status":"pending","rawInput":{{"command":"true"}}}}}}}}"#
            ),
        );
    }
    assert!(stop_once(&mut stop, tap.over_budget(None).unwrap()));
    match session.next(Event::Stopped(stop.as_ref().map(Stop::copy))) {
        Action::Cancel(line, sid) => {
            assert_eq!(line, "⚠ over budget: more than 2 tool calls");
            assert_eq!(sid, "s1");
        }
        other => panic!("{other:?}"),
    }
    let params = j(r#"{"sessionId":"s1","toolCall":{"toolCallId":"t2","kind":"execute","rawInput":{"command":"true"}},"options":[{"optionId":"allow","name":"Allow","kind":"allow_once"},{"optionId":"reject","name":"Reject","kind":"reject_once"}]}"#);
    let answer = answer_permission(&Policy::allow_all(), "/w", &params, stop.is_some());
    assert_eq!(answer.selected, None);
    assert_eq!(
        answer.meta.at("botHarness").at("decision").as_str(),
        Some("cancelled")
    );
    match session.next(Event::WoundDown) {
        Action::End(lines, ended) => {
            assert!(lines.is_empty());
            assert_eq!(ended.outcome.exit_code(), 3);
            assert_eq!(ended.outcome.as_str(), "budget");
            assert_eq!(
                ended.message.as_deref(),
                Some("over budget: more than 2 tool calls")
            );
        }
        other => panic!("{other:?}"),
    }
    assert!(matches!(session.phase, Phase::Over));
}

#[test]
fn timeout_before_the_session() {
    let (mut session, _) = Session::new("/w".into(), None, false, "p".into());
    match session.next(Event::Stopped(Some(Stop::Timeout))) {
        Action::End(lines, ended) => {
            assert_eq!(lines, ["⚠ hit the timeout (starting the session)"]);
            assert_eq!(ended.outcome.exit_code(), 124);
            assert_eq!(ended.outcome.as_str(), "timeout");
            assert_eq!(ended.stop_reason, None);
        }
        other => panic!("{other:?}"),
    }
}

#[test]
fn models_are_selected_before_the_prompt() {
    // By the environment, or not at all: straight to the prompt.
    for (model, by_env) in [(None, false), (Some("m"), true), (None, true)] {
        let mut s = started(model, by_env);
        let next = s.next(Event::Started(Ok(new_session(&[("o", true)]))));
        assert!(matches!(next, Action::Prompt(_, _)));
    }
    let mut s = started(Some("m"), false);
    match s.next(Event::Started(Ok(new_session(&[("a", false), ("b", true), ("c", true)])))) {
        Action::Select(sid, option, value) => {
            assert_eq!((sid.as_str(), option.as_str(), value.as_str()), ("s1", "b", "m"))
        }
        other => panic!("{other:?}"),
    }
    let next = s.next(Event::Selected(Ok(())));
    assert!(matches!(next, Action::Prompt(sid, _) if sid == "s1"));
}

fn end_of(action: Action) -> Ended {
    match action {
        Action::End(lines, ended) => {
            assert!(lines.is_empty());
            ended
        }
        other => panic!("{other:?}"),
    }
}

#[test]
fn failed_sessions_say_where() {
    let message = |a: Action| {
        let e = end_of(a);
        assert_eq!(e.outcome, Outcome::Failure);
        e.message.unwrap()
    };
    let (mut s, _) = Session::new("/w".into(), None, false, "p".into());
    assert_eq!(
        message(s.next(Event::Initialized(Err("no".into())))),
        "initialize failed: no"
    );
    let mut s = started(None, false);
    assert_eq!(
        message(s.next(Event::Started(Err("no".into())))),
        "session/new failed: no"
    );
    let mut s = started(Some("big"), false);
    assert_eq!(
        message(s.next(Event::Started(Ok(new_session(&[("a", false)]))))),
        "the agent has no model option to select big with"
    );
    let mut s = started(Some("big"), false);
    s.next(Event::Started(Ok(new_session(&[("a", true)]))));
    assert_eq!(
        message(s.next(Event::Selected(Err("no".into())))),
        "selecting model big failed: no"
    );
    let mut s = started(None, false);
    s.next(Event::Started(Ok(new_session(&[]))));
    assert_eq!(
        message(s.next(Event::Answered(Err("no".into())))),
        "session/prompt failed: no"
    );
    let mut s = started(None, false);
    assert_eq!(
        message(s.next(Event::Stopped(None))),
        "the harness lost its stop signal"
    );
}

#[test]
fn turns_end_in_an_outcome() {
    for (reason, outcome, message) in [
        (Some("end_turn"), Outcome::Success, None),
        (Some("cancelled"), Outcome::Cancelled, Some("the agent stopped: cancelled")),
        (
            Some("max_turn_requests"),
            Outcome::Budget,
            Some("the agent stopped: max_turn_requests"),
        ),
        (Some("refusal"), Outcome::Failure, Some("the agent stopped: refusal")),
        (None, Outcome::Failure, Some("the agent stopped: ?")),
    ] {
        let e = prompt_result(Ok(reason.map(str::to_owned)));
        assert_eq!(e.outcome, outcome);
        assert_eq!(e.stop_reason.as_deref(), reason);
        assert_eq!(e.message.as_deref(), message);
    }
}

#[test]
fn the_first_stop_counts() {
    let mut stop = None;
    assert!(stop_once(&mut stop, Stop::Budget("x".into())));
    assert!(!stop_once(&mut stop, Stop::Timeout));
    let (outcome, text) = stopped(stop.as_ref().unwrap());
    assert_eq!((outcome, text.as_str()), (Outcome::Budget, "over budget: x"));
    assert_eq!(
        stopped(&Stop::Timeout),
        (Outcome::Timeout, "hit the timeout".to_owned())
    );
}

#[test]
fn budgets() {
    let mut tap = Tap::create(limits(Some(0)));
    assert!(tap.over_budget(None).is_none());
    assert!(matches!(
        tap.over_budget(Some("spent 2.0 of 1 AIC")),
        Some(Stop::Budget(m)) if m == "spent 2.0 of 1 AIC"
    ));
    tap_line(
        &mut tap,
        Dir::Recv,
        r#"{"method":"session/update","params":{"update":{"sessionUpdate":"tool_call","toolCallId":"t"}}}"#,
    );
    assert!(matches!(
        tap.over_budget(Some("spent 2.0 of 1 AIC")),
        Some(Stop::Budget(m)) if m == "more than 0 tool calls"
    ));
    tap.limits = limits(None);
    assert!(tap.over_budget(None).is_none());
}

#[test]
fn lines_are_recorded_parsed_or_raw() {
    let r = Record::new(1.5f64.to_bits(), Dir::Send, r#"{"b": 1, "a": [ ]}"#);
    assert_eq!(f64::from_bits(r.ts), 1.5);
    assert_eq!(r.dir, Dir::Send);
    assert_eq!(r.msg.unwrap().to_text(), r#"{"b":1,"a":[]}"#);
    assert_eq!(r.line, None);
    let r = Record::new(0, Dir::Recv, "not json\t");
    assert!(r.msg.is_none());
    assert_eq!(r.line.as_deref(), Some("not json\t"));
    let mut tap = Tap::create(limits(None));
    assert!(tap.line(&r, 0).is_empty());
}

fn policy() -> Policy {
    Policy::parse(&PolicyFile {
        default: Decision::Allow,
        rule: vec![RuleFile {
            name: "no-etc".into(),
            decision: Decision::Deny,
            kind: vec![],
            command: None,
            paths: vec!["/etc".into()],
            outside: vec![],
        }],
    })
    .unwrap()
}

#[test]
fn permissions_are_answered_from_the_policy() {
    let options = r#"[{"optionId":"y","kind":"allow_once"},{"optionId":"n","kind":"reject_once"}]"#;
    let ask = |path: &str, options: &str| {
        j(&format!(
            r#"{{"toolCall":{{"kind":"read","rawInput":{{"path":"{path}"}}}},"options":{options}}}"#
        ))
    };
    for (path, options, stop, selected, meta) in [
        ("x", options, false, Some("y"), r#"{"botHarness":{"decision":"allow","rule":null}}"#),
        (
            "/etc/x",
            options,
            false,
            Some("n"),
            r#"{"botHarness":{"decision":"deny","rule":"no-etc"}}"#,
        ),
        ("x", options, true, None, r#"{"botHarness":{"decision":"cancelled","rule":null}}"#),
        (
            "../etc/x",
            "[]",
            false,
            None,
            r#"{"botHarness":{"decision":"cancelled","rule":"no-etc"}}"#,
        ),
    ] {
        let a = answer_permission(&policy(), "/w", &ask(path, options), stop);
        assert_eq!(a.selected.as_deref(), selected, "{path}");
        assert_eq!(a.meta.to_text(), meta, "{path}");
    }
}

#[test]
fn runs_conclude() {
    let ended = |o: Outcome, message: Option<&str>| Ended {
        outcome: o,
        stop_reason: None,
        message: message.map(str::to_owned),
    };
    // The reason is said once more, unless the digest said it.
    let mut tap = Tap::create(limits(None));
    tap_line(&mut tap, Dir::Send, r#"{"id":1,"method":"session/prompt"}"#);
    tap_line(&mut tap, Dir::Recv, r#"{"id":1,"result":{"stopReason":"refusal"}}"#);
    let (e, lines) = tap.conclude(Ok(ended(Outcome::Failure, Some("no\nluck"))));
    assert_eq!(lines, ["⚠ no luck"]);
    assert_eq!(e.stop_reason.as_deref(), Some("refusal"));
    assert_eq!(e.message.as_deref(), Some("no\nluck"));
    // A transport error.
    let mut tap = Tap::create(limits(None));
    let (e, lines) = tap.conclude(Err("exit 1".into()));
    assert_eq!(e.outcome, Outcome::Failure);
    assert_eq!(lines, ["⚠ the agent failed: exit 1"]);
    // A transcript that could not be written; the first error counts.
    let mut tap = Tap::create(limits(None));
    tap.note("disk full");
    tap.note("again");
    let (e, lines) = tap.conclude(Ok(ended(Outcome::Success, None)));
    assert_eq!(e.outcome, Outcome::Failure);
    assert_eq!(e.message.as_deref(), Some("writing the transcript: disk full"));
    assert_eq!(lines, ["⚠ writing the transcript: disk full"]);
    // The digest has said what failed.
    let mut tap = Tap::create(limits(None));
    tap_line(&mut tap, Dir::Send, r#"{"id":1,"method":"initialize"}"#);
    tap_line(&mut tap, Dir::Recv, r#"{"id":1,"error":{"message":"x"}}"#);
    let (_, lines) = tap.conclude(Ok(ended(Outcome::Failure, Some("m"))));
    assert!(lines.is_empty());
}

#[test]
fn results_are_timed() {
    let at = |secs: i64, nanos: u32| Moment { secs, nanos };
    let result = |a: Moment, b: Moment| {
        RunResult::new(
            "goose".into(),
            vec!["x".into()],
            Ended {
                outcome: Outcome::Timeout,
                stop_reason: Some("cancelled".into()),
                message: Some("a\nb".into()),
            },
            a,
            b,
            limits(Some(4)),
        )
    };
    let r = result(at(1_790_000_000, 900_000_000), at(1_790_000_061, 100_000_000)).unwrap();
    assert_eq!(r.schema, RESULT_SCHEMA);
    assert_eq!((r.agent.as_str(), r.command.as_slice()), ("goose", &["x".to_owned()][..]));
    assert_eq!(r.result, Outcome::Timeout);
    assert_eq!(r.stop_reason.as_deref(), Some("cancelled"));
    assert_eq!(r.message.as_deref(), Some("a b"));
    assert_eq!(r.started_at, "2026-09-21T14:13:20Z");
    assert_eq!(r.finished_at, "2026-09-21T14:14:21Z");
    assert_eq!(r.duration_s, 60);
    assert_eq!(r.limits.max_tool_calls, Some(4));
    assert_eq!(result(at(5, 0), at(4, 0)).unwrap().duration_s, 0);
    assert_eq!(result(at(5, 0), at(5, 999_999_999)).unwrap().duration_s, 0);
    assert_eq!(result(at(-1, 0), at(1, 0)).unwrap().duration_s, 2);
    assert!(result(at(0, 0), at(i64::MAX, 0)).is_none());
}

#[test]
fn transcripts_tell_the_decisions() {
    let policy = Policy::parse(&PolicyFile {
        default: Decision::Allow,
        rule: vec![RuleFile {
            name: "no-push".into(),
            decision: Decision::Deny,
            kind: vec!["execute".into()],
            command: Some("push".into()),
            paths: vec![],
            outside: vec![],
        }],
    })
    .unwrap();
    let both = r#"[{"optionId": "y", "kind": "allow_once"}, {"optionId": "n", "kind": "reject_once"}]"#;
    let always = r#"[{"optionId": "y", "kind": "allow_always"}, {"optionId": "n", "kind": "reject_always"}]"#;
    // The command and the options; then the decision and the rule recorded,
    // what is selected, and what is counted.
    let cases = [
        ("ls", both, false, ("allow", None), Some("y"), (1, 0)),
        ("git push", both, false, ("deny", Some("no-push")), Some("n"), (0, 1)),
        ("ls", always, false, ("deny", None), Some("n"), (0, 1)),
        ("ls", "[]", false, ("cancelled", None), None, (0, 1)),
        ("ls", both, true, ("cancelled", None), None, (0, 1)),
        ("git push", both, true, ("cancelled", Some("no-push")), None, (0, 1)),
    ];
    for (command, options, stop, (decision, rule), selected, counts) in cases {
        let params = format!(
            r#"{{"toolCall": {{"kind": "execute", "rawInput": {{"command": "{command}"}}}}, "options": {options}}}"#
        );
        let answer = answer_permission(&policy, "/w", &j(&params), stop);
        let recorded = answer.meta.at("botHarness");
        assert_eq!(recorded.at("decision").as_str(), Some(decision));
        assert_eq!(recorded.at("rule").as_str(), rule);
        assert_eq!(answer.selected.as_deref(), selected);

        let outcome = match &answer.selected {
            Some(id) => format!(r#"{{"outcome": "selected", "optionId": "{id}"}}"#),
            None => r#"{"outcome": "cancelled"}"#.to_owned(),
        };
        let mut tap = Tap::create(limits(None));
        tap_line(
            &mut tap,
            Dir::Recv,
            &format!(r#"{{"id": 1, "method": "session/request_permission", "params": {params}}}"#),
        );
        tap_line(
            &mut tap,
            Dir::Send,
            &format!(
                r#"{{"id": 1, "result": {{"outcome": {outcome}, "_meta": {}}}}}"#,
                answer.meta.to_text()
            ),
        );
        let d = &tap.digest;
        assert_eq!((d.allowed, d.denied.len()), counts, "{params}");
        if let Some(denial) = d.denied.first() {
            assert_eq!(denial.rule.as_deref(), rule, "{params}");
        }
    }
}

#[test]
fn events_come_in_order() {
    let stopped = || Event::Stopped(Some(Stop::Timeout));
    let mut s = started(None, false);
    assert!(s.takes(&Event::Started(Ok(new_session(&[])))));
    assert!(s.takes(&stopped()));
    assert!(!s.takes(&Event::Answered(Ok(None))));
    assert!(!s.takes(&Event::WoundDown));
    s.next(Event::Started(Ok(new_session(&[]))));
    assert!(s.takes(&Event::Answered(Ok(None))));
    assert!(s.takes(&stopped()));
    s.next(stopped());
    assert!(s.takes(&Event::WoundDown));
    assert!(!s.takes(&stopped()));
    s.next(Event::WoundDown);
    assert!(!s.takes(&Event::WoundDown));
    assert!(!s.takes(&stopped()));
}
