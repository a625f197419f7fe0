use bot_harness::json::Json;
use bot_harness::policy::{
    pick_option, Decision, Policy, PolicyError, PolicyFile, Request, RuleFile,
};

const POLICY: &str = r#"
default = "allow"

[[rule]]
name = "no-push"
decision = "deny"
kind = ["execute"]
command = '\bgit\b.*\bpush\b'

[[rule]]
name = "writes-in-work-only"
decision = "deny"
kind = ["edit", "delete", "move"]
outside = ["/home/sandbox/work", "/home/sandbox/out"]

[[rule]]
name = "no-ssh-keys"
decision = "deny"
paths = ["/home/sandbox/.ssh"]
"#;

fn j(text: &str) -> Json {
    Json::parse(text).unwrap()
}

fn decision(v: &toml::Value) -> Decision {
    match v.as_str().unwrap() {
        "allow" => Decision::Allow,
        "deny" => Decision::Deny,
        other => panic!("{other}"),
    }
}

fn strings(rule: &toml::Table, key: &str) -> Vec<String> {
    match rule.get(key) {
        Some(v) => v
            .as_array()
            .unwrap()
            .iter()
            .map(|s| s.as_str().unwrap().to_owned())
            .collect(),
        None => Vec::new(),
    }
}

/// A policy file as it is written.
fn file(text: &str) -> PolicyFile {
    let t: toml::Table = text.parse().unwrap();
    let rule = match t.get("rule") {
        Some(rules) => rules
            .as_array()
            .unwrap()
            .iter()
            .map(|r| {
                let r = r.as_table().unwrap();
                RuleFile {
                    name: r["name"].as_str().unwrap().to_owned(),
                    decision: decision(&r["decision"]),
                    kind: strings(r, "kind"),
                    command: r.get("command").map(|c| c.as_str().unwrap().to_owned()),
                    paths: strings(r, "paths"),
                    outside: strings(r, "outside"),
                }
            })
            .collect(),
        None => Vec::new(),
    };
    PolicyFile {
        default: decision(&t["default"]),
        rule,
    }
}

fn params(kind: &str, input: &str, locations: &[&str]) -> Json {
    let locations: Vec<String> = locations
        .iter()
        .map(|p| format!(r#"{{"path": "{p}"}}"#))
        .collect();
    j(&format!(
        r#"{{
            "sessionId": "s",
            "toolCall": {{
                "toolCallId": "t",
                "title": "a tool",
                "kind": "{kind}",
                "rawInput": {input},
                "locations": [{}]
            }},
            "options": []
        }}"#,
        locations.join(", ")
    ))
}

#[test]
fn decide() {
    let policy = Policy::parse(&file(POLICY)).unwrap();
    let cwd = "/home/sandbox/work/repo";
    let cases = [
        (
            "execute",
            r#"{"command": "cargo test"}"#,
            vec![],
            "allow",
            None,
        ),
        (
            "execute",
            r#"{"command": "git push origin HEAD"}"#,
            vec![],
            "deny",
            Some("no-push"),
        ),
        (
            "execute",
            r#"{"command": "cd x && git  push -f"}"#,
            vec![],
            "deny",
            Some("no-push"),
        ),
        (
            "execute",
            r#"{"command": ["git", "push"]}"#,
            vec![],
            "deny",
            Some("no-push"),
        ),
        // Only execute calls are checked for commands.
        (
            "other",
            r#"{"command": "git push"}"#,
            vec![],
            "allow",
            None,
        ),
        (
            "execute",
            r#"{"command": "git pushy"}"#,
            vec![],
            "allow",
            None,
        ),
        (
            "execute",
            r#"{"command": "git -C repo push"}"#,
            vec![],
            "deny",
            Some("no-push"),
        ),
        (
            "execute",
            r#"{"command": "git -c a=b push"}"#,
            vec![],
            "deny",
            Some("no-push"),
        ),
        (
            "edit",
            r#"{"file_path": "src/main.rs"}"#,
            vec![],
            "allow",
            None,
        ),
        (
            "edit",
            "{}",
            vec!["/home/sandbox/out/outcome.json"],
            "allow",
            None,
        ),
        (
            "edit",
            r#"{"filePath": "/etc/passwd"}"#,
            vec![],
            "deny",
            Some("writes-in-work-only"),
        ),
        // Lexically outside, whatever it's spelled like.
        (
            "edit",
            r#"{"file_path": "../../../../etc/motd"}"#,
            vec![],
            "deny",
            Some("writes-in-work-only"),
        ),
        (
            "delete",
            "{}",
            vec!["/home/sandbox/work/repo", "/tmp/x"],
            "deny",
            Some("writes-in-work-only"),
        ),
        // Reads anywhere, except where a later rule says.
        (
            "read",
            r#"{"file_path": "/etc/os-release"}"#,
            vec![],
            "allow",
            None,
        ),
        (
            "read",
            "{}",
            vec!["/home/sandbox/.ssh/id_ed25519"],
            "deny",
            Some("no-ssh-keys"),
        ),
        // No paths: `outside` fails closed, `paths` doesn't match.
        (
            "edit",
            "{}",
            vec![],
            "deny",
            Some("writes-in-work-only"),
        ),
        ("read", "{}", vec![], "allow", None),
    ];
    for (kind, input, locations, want, rule) in cases {
        let req = Request::from_params(&params(kind, input, &locations), cwd);
        let v = policy.decide(&req);
        assert_eq!(
            v.decision.as_str(),
            want,
            "{kind} {input} {locations:?}: {req:?}"
        );
        assert_eq!(v.rule.as_deref(), rule, "{kind} {input} {locations:?}");
    }
}

#[test]
fn deny_by_default() {
    let policy = Policy::parse(&file(
        "default = \"deny\"\n[[rule]]\nname = \"reads\"\ndecision = \"allow\"\nkind = [\"read\", \"search\"]\n",
    ))
    .unwrap();
    for (kind, want) in [
        ("read", "allow"),
        ("search", "allow"),
        ("execute", "deny"),
        ("fetch", "deny"),
    ] {
        let req = Request::from_params(&params(kind, "{}", &[]), "/w");
        assert_eq!(policy.decide(&req).decision.as_str(), want, "{kind}");
    }
}

#[test]
fn bad_policies() {
    let cases = [
        (
            "default = \"allow\"\n[[rule]]\nname = \"x\"\ndecision = \"deny\"\nkind = [\"exec\"]",
            "unknown tool kind 'exec'",
        ),
        (
            "default = \"allow\"\n[[rule]]\nname = \"x\"\ndecision = \"deny\"\ncommand = \"(\"",
            "bad command regex",
        ),
        (
            "default = \"allow\"\n[[rule]]\nname = \"x\"\ndecision = \"deny\"\npaths = [\"work\"]",
            "not absolute",
        ),
    ];
    for (text, want) in cases {
        let err = Policy::parse(&file(text)).unwrap_err().message();
        assert!(err.contains(want), "{text:?}: {err}");
    }
}

#[test]
fn options() {
    let options = j(r#"[
        {"optionId": "always", "name": "Always", "kind": "allow_always"},
        {"optionId": "once", "name": "Allow", "kind": "allow_once"},
        {"optionId": "no", "name": "Reject", "kind": "reject_once"}
    ]"#);
    let only_always = j(r#"[
        {"optionId": "a", "name": "Always", "kind": "allow_always"},
        {"optionId": "r", "name": "Reject", "kind": "reject_always"}
    ]"#);
    let no_reject = j(r#"[{"optionId": "a", "name": "Always", "kind": "allow_always"}]"#);
    let cases = [
        (&options, Decision::Allow, Some(("once", Decision::Allow))),
        (&options, Decision::Deny, Some(("no", Decision::Deny))),
        // Never "allow always": reject instead.
        (&only_always, Decision::Allow, Some(("r", Decision::Deny))),
        (&no_reject, Decision::Allow, None),
        (&no_reject, Decision::Deny, None),
        (&Json::Null, Decision::Allow, None),
    ];
    for (opts, decision, want) in cases {
        let got = pick_option(opts, decision);
        let got = got.as_ref().map(|(id, d)| (id.as_str(), *d));
        assert_eq!(got, want, "{} {decision:?}", opts.to_text());
    }
}

fn rule(name: &str) -> RuleFile {
    RuleFile {
        name: name.to_owned(),
        decision: Decision::Deny,
        kind: vec![],
        command: None,
        paths: vec![],
        outside: vec![],
    }
}

fn deny(rule: RuleFile) -> PolicyFile {
    PolicyFile {
        default: Decision::Allow,
        rule: vec![rule],
    }
}

#[test]
fn errors_say_which_rule() {
    let kind = RuleFile {
        kind: vec!["read".into(), "exec".into()],
        paths: vec!["x".into()],
        ..rule("a")
    };
    let e = Policy::parse(&deny(kind)).unwrap_err();
    assert!(matches!(e, PolicyError::UnknownKind(_, _)));
    assert_eq!(
        e.message(),
        "rule a: unknown tool kind 'exec' (one of: read, edit, delete, move, search, execute, think, fetch, switch_mode, other)"
    );
    let paths = RuleFile {
        outside: vec!["/ok".into(), "no/t".into()],
        command: Some("(".into()),
        ..rule("b")
    };
    let e = Policy::parse(&deny(paths)).unwrap_err();
    assert!(matches!(e, PolicyError::NotAbsolute(_, _)));
    assert_eq!(e.message(), "rule b: path no/t is not absolute");
    let command = RuleFile {
        command: Some("[".into()),
        ..rule("c")
    };
    let e = Policy::parse(&deny(command)).unwrap_err();
    assert!(matches!(e, PolicyError::BadRegex(_, _)));
    let why = regex::Regex::new("[").unwrap_err().to_string();
    assert_eq!(e.message(), format!("rule c: bad command regex: {why}"));
}

#[test]
fn first_bad_rule_is_reported() {
    let bad = |name: &str| RuleFile {
        kind: vec!["nope".into()],
        ..rule(name)
    };
    let file = PolicyFile {
        default: Decision::Deny,
        rule: vec![rule("good"), bad("one"), bad("two")],
    };
    assert!(Policy::parse(&file).unwrap_err().message().starts_with("rule one:"));
}

#[test]
fn commands_are_of_execute_calls() {
    let policy = Policy::parse(&deny(RuleFile {
        command: Some("^rm".into()),
        ..rule("no-rm")
    }))
    .unwrap();
    for (kind, input, want) in [
        ("execute", r#"{"command": "rm -r x"}"#, Some("no-rm")),
        ("execute", r#"{"command": ["rm", 1, true]}"#, Some("no-rm")),
        ("execute", r#"{"command": 7}"#, None),
        ("execute", "{}", None),
        ("other", r#"{"command": "rm -r x"}"#, None),
    ] {
        let req = Request::from_params(&params(kind, input, &[]), "/w");
        assert_eq!(policy.decide(&req).rule.as_deref(), want, "{kind} {input}");
    }
}

#[test]
fn requests_name_their_paths_once_and_in_order() {
    let p = params(
        "edit",
        r#"{"path": "b", "file_path": "/w/./a", "notebook_path": "../z", "command": ["echo", {"x": 1}]}"#,
        &["/w/b", "/w/a/", "c/../b"],
    );
    let req = Request::from_params(&p, "/w");
    let paths: Vec<String> = req.paths.iter().map(|p| p.to_text()).collect();
    assert_eq!(paths, ["/w/a", "/w/b", "/z"]);
    assert_eq!(req.kind, "edit");
    assert_eq!(req.title, "a tool");
    assert_eq!(req.command.as_deref(), Some(r#"echo {"x":1}"#));
    let none = Request::from_params(&j("{}"), "/w");
    assert_eq!((none.kind.as_str(), none.title.as_str()), ("other", ""));
    assert!(none.command.is_none() && none.paths.is_empty());
}

#[test]
fn everything_is_allowed_without_a_policy() {
    let req = Request::from_params(&params("delete", r#"{"path": "/"}"#, &[]), "/w");
    let v = Policy::allow_all().decide(&req);
    assert_eq!((v.decision, v.rule), (Decision::Allow, None));
}
