use bot_harness::agents::{parse, valid_env_name, AgentError, AgentSpec};
use bot_harness::table::Sorted;

const REGISTRY: &str = r#"
[goose]
command = ["goose-agent-acp"]
model-env = "ANTHROPIC_MODEL"
env = { DISABLE_AUTOUPDATER = "1" }

[opencode]
command = ["opencode", "acp"]
"#;

fn strings(v: &[&str]) -> Vec<String> {
    v.iter().map(|s| s.to_string()).collect()
}

/// A registry as it is written.
fn registry(text: &str) -> Sorted<AgentSpec> {
    let t: toml::Table = text.parse().unwrap();
    let mut agents = Sorted::new();
    for (name, entry) in &t {
        let e = entry.as_table().unwrap();
        let mut env = Sorted::new();
        if let Some(vars) = e.get("env") {
            for (k, v) in vars.as_table().unwrap() {
                env = env.with(k, v.as_str().unwrap().to_owned());
            }
        }
        let spec = AgentSpec {
            command: e["command"]
                .as_array()
                .unwrap()
                .iter()
                .map(|s| s.as_str().unwrap().to_owned())
                .collect(),
            env,
            model_env: e.get("model-env").map(|v| v.as_str().unwrap().to_owned()),
        };
        agents = agents.with(name, spec);
    }
    agents
}

fn pairs(env: &Sorted<String>) -> Vec<(&str, &str)> {
    (0..env.len())
        .map(|i| (env.key(i), env.value(i).as_str()))
        .collect()
}

#[test]
fn commands() {
    let goose = parse(&registry(REGISTRY), "goose").unwrap();
    let opencode = parse(&registry(REGISTRY), "opencode").unwrap();
    let wrap = strings(&["sudo", "systemd-run", "--"]);
    let none = strings(&[]);
    // (agent, wrapper, model, argv, environment)
    type Case<'a> = (
        &'a AgentSpec,
        &'a Vec<String>,
        Option<&'a str>,
        &'a [&'a str],
        &'a [(&'a str, &'a str)],
    );
    let cases: [Case; 5] = [
        (
            &goose,
            &none,
            None,
            &["goose-agent-acp"],
            &[("DISABLE_AUTOUPDATER", "1")],
        ),
        (
            &goose,
            &none,
            Some("m"),
            &["goose-agent-acp"],
            &[("ANTHROPIC_MODEL", "m"), ("DISABLE_AUTOUPDATER", "1")],
        ),
        (
            &goose,
            &wrap,
            Some("m"),
            &[
                "sudo",
                "systemd-run",
                "--",
                "env",
                "ANTHROPIC_MODEL=m",
                "DISABLE_AUTOUPDATER=1",
                "goose-agent-acp",
            ],
            &[],
        ),
        // The model is a session option: not in the environment.
        (&opencode, &none, Some("m"), &["opencode", "acp"], &[]),
        (
            &opencode,
            &wrap,
            None,
            &["sudo", "systemd-run", "--", "env", "opencode", "acp"],
            &[],
        ),
    ];
    for (spec, wrapper, model, argv, env) in cases {
        let (a, e) = spec.command(wrapper, model);
        assert_eq!(a, strings(argv));
        assert_eq!(pairs(&e), env);
    }
}

#[test]
fn bad_registries() {
    let cases = [
        (
            REGISTRY,
            "codex",
            "no agent 'codex' (known: goose, opencode)",
        ),
        ("[a]\ncommand = []", "a", "empty command"),
        (
            "[a]\ncommand = [\"x\"]\nmodel-env = \"A=B\"",
            "a",
            "not a valid environment variable",
        ),
        (
            "[a]\ncommand = [\"x\"]\nenv = { \"1X\" = \"y\" }",
            "a",
            "not a valid environment variable",
        ),
    ];
    for (text, name, want) in cases {
        let err = parse(&registry(text), name).unwrap_err().message();
        assert!(err.contains(want), "{text:?}: {err}");
    }
}

#[test]
fn registry_errors() {
    let e = parse(&registry("[a]\ncommand = []"), "a").unwrap_err();
    assert!(matches!(e, AgentError::NoCommand(_)));
    assert_eq!(e.message(), "agent 'a' has an empty command");
    let e = parse(&registry(""), "a").unwrap_err();
    assert!(matches!(e, AgentError::Unknown(_, _)));
    assert_eq!(e.message(), "no agent 'a' (known: )");
    // The variables in their order, then the model's.
    let text = "[a]\ncommand = [\"x\"]\nmodel-env = \"\"\nenv = { \"z-\" = \"1\", \"b c\" = \"2\" }";
    let e = parse(&registry(text), "a").unwrap_err();
    assert!(matches!(e, AgentError::BadVariable(_, _)));
    assert_eq!(
        e.message(),
        "agent 'a': 'b c' is not a valid environment variable name"
    );
}

#[test]
fn environment_names() {
    for name in ["A", "_", "a1_", "PATH", "__x"] {
        assert!(valid_env_name(name), "{name}");
    }
    for name in ["", "1", "A=B", "a-b", "é", "a b", "Aé"] {
        assert!(!valid_env_name(name), "{name}");
    }
}

#[test]
fn the_models_variable_replaces_the_agents_own() {
    let text = "[a]\ncommand = [\"x\"]\nmodel-env = \"M\"\nenv = { M = \"old\", A = \"1\" }";
    let spec = parse(&registry(text), "a").unwrap();
    let (argv, env) = spec.command(&vec![], Some("new"));
    assert_eq!(argv, ["x"]);
    assert_eq!(pairs(&env), [("A", "1"), ("M", "new")]);
    let (_, env) = spec.command(&vec![], None);
    assert_eq!(pairs(&env), [("A", "1"), ("M", "old")]);
}

#[test]
fn tables_keep_their_keys_in_order() {
    let mut t: Sorted<String> = Sorted::new();
    for k in ["b", "a", "c", "ab", "b", "A"] {
        t = t.with(k, k.to_uppercase());
    }
    assert_eq!(
        pairs(&t),
        [("A", "A"), ("a", "A"), ("ab", "AB"), ("b", "B"), ("c", "C")]
    );
    assert_eq!(t.get("ab").map(String::as_str), Some("AB"));
    assert!(t.get("zz").is_none());
    assert_eq!(pairs(&t.copy()), pairs(&t));
}
