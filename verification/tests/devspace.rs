use bot_harness::devspace::{
    active_runs, cancel_args, check_statuses, classify_status, diagnostic, dispatch_args,
    dispatch_result_requires_retention, ensure_active_details, find_run, format_run, hostname,
    is_managed, keygen_args, list_args, parse_cores, parse_run_id, pending_name, random_session,
    require_size, runner_sizes, session_file, session_name, sizes_in, ssh_command,
    ssh_probe_command, state_base, state_path, state_root_from, stop_decision, view_args, Details,
    DurationMinutes, ExternalFailure, Run, StateBase, StopDecision, WorkflowState, REPO, WORKFLOW, WORKFLOW_NAME,
};
use bot_harness::moment::Moment;
use bot_harness::table::Sorted;

fn timestamp(value: &str) -> Moment {
    let t = chrono::DateTime::parse_from_rfc3339(value).unwrap();
    Moment {
        secs: t.timestamp(),
        nanos: t.timestamp_subsec_nanos(),
    }
}
fn run_with_status(id: u64, status: &str) -> Run {
    Run {
        database_id: Some(id),
        created_at: timestamp("2026-01-01T00:00:02Z"),
        display_title: "Devspace session-a".into(),
        status: status.into(),
        url: "url".into(),
    }
}
fn run(id: u64) -> Run {
    run_with_status(id, "in_progress")
}
fn sizes(entries: &[(&str, &str)]) -> Sorted<String> {
    let mut s = Sorted::new();
    for (cores, label) in entries {
        s = s.with(cores, label.to_string());
    }
    s
}

#[test]
fn correlation_and_hostname() {
    assert_eq!(
        find_run("session-a", timestamp("2026-01-01T00:00:01Z"), &vec![run(2)])
            .unwrap()
            .database_id,
        Some(2)
    );
    assert!(find_run(
        "session-a",
        timestamp("2026-01-01T00:00:01Z"),
        &vec![run(2), run(3)]
    )
    .is_none());
    assert_eq!(hostname(2), "cgwalters-devspace-2");
}

#[test]
fn correlation_uses_parsed_timestamps_and_rejects_fences() {
    let before = Run {
        created_at: timestamp("2025-12-31T23:59:59Z"),
        ..run(1)
    };
    let after = Run {
        created_at: timestamp("2026-01-01T00:00:03+00:00"),
        ..run(2)
    };
    assert!(find_run("session-a", timestamp("2026-01-01T00:00:00Z"), &vec![before]).is_none());
    assert_eq!(
        find_run("session-a", timestamp("2026-01-01T00:00:02Z"), &vec![after])
            .unwrap()
            .database_id,
        Some(2)
    );
}

#[test]
fn active_filter_and_status_validation() {
    for (id, status) in ["requested", "waiting", "pending", "queued", "in_progress"]
        .into_iter()
        .enumerate()
    {
        assert_eq!(classify_status(status).unwrap(), WorkflowState::Active);
        let details = Details {
            workflow_name: WORKFLOW_NAME.into(),
            status: status.into(),
            conclusion: None,
        };
        assert_eq!(stop_decision(&details).unwrap(), StopDecision::Active);
        assert_eq!(
            active_runs(&vec![run_with_status(id as u64, status)])
                .unwrap()
                .len(),
            1
        );
    }
    assert_eq!(
        classify_status("completed").unwrap(),
        WorkflowState::Completed
    );
    let runs = vec![
        run_with_status(1, "requested"),
        run_with_status(2, "in_progress"),
        run_with_status(3, "completed"),
    ];
    let active = active_runs(&runs).unwrap();
    assert_eq!(
        active.iter().map(|run| run.database_id).collect::<Vec<_>>(),
        [Some(1), Some(2)]
    );
    for status in ["", "cancelled", "unknown"] {
        assert!(classify_status(status).is_err());
        assert!(active_runs(&vec![run_with_status(4, status)]).is_err());
    }
}

#[test]
fn state_permissions_and_argv() {
    let key = "/state/7/id_ed25519";
    let known_hosts = "/state/7/known hosts";
    let argv = ssh_command(key, known_hosts, &hostname(7));
    assert!(argv.contains(&"StrictHostKeyChecking=accept-new".into()));
    assert!(argv.contains(&"IdentitiesOnly=yes".into()));
    assert_eq!(argv.last().unwrap(), "runner@cgwalters-devspace-7");
    let probe = ssh_probe_command(key, known_hosts, &hostname(7));
    assert!(probe.contains(&"BatchMode=yes".into()));
    assert!(probe.contains(&"ConnectTimeout=8".into()));
    assert_eq!(probe.last().unwrap(), "true");
}

#[test]
fn pending_state_is_random_and_cleanup_depends_on_dispatch() {
    let first = random_session().unwrap();
    assert!(first.starts_with("session-"));
    assert_eq!(first.len(), "session-".len() + 32);
    assert!(first["session-".len()..]
        .chars()
        .all(|c| matches!(c, '0'..='9' | 'a'..='f')));
    assert_ne!(first, random_session().unwrap());
    assert_eq!(pending_name("session-a"), ".pending-session-a");
    assert_eq!(session_file("session-a"), "session-a\n");
}

#[test]
fn state_root_and_diagnostics_are_safe() {
    for (xdg, home) in [
        (None, None),
        (Some(""), Some("/home/user")),
        (Some("relative"), Some("/home/user")),
        (Some("/state"), None),
        (None, Some("")),
        (None, Some("relative")),
    ] {
        let result = state_root_from(xdg, home);
        if let Err(error) = result {
            assert!(error.contains("absolute"));
        }
    }
    let fallback = "/home/user/.local/state/devspace";
    assert_eq!(state_root_from(Some(""), Some("/home/user")).unwrap(), fallback);
    assert_eq!(
        state_root_from(Some("relative"), Some("/home/user")).unwrap(),
        fallback
    );
    assert_eq!(
        state_root_from(None, Some("/home/user")).unwrap(),
        "/home/user/.local/state/devspace"
    );
    assert_eq!(
        state_root_from(Some("/tmp/state"), None).unwrap(),
        "/tmp/state/devspace"
    );
    let (out, err) = (b"stdout detail".to_vec(), b"stderr detail".to_vec());
    assert_eq!(diagnostic(&out, &err), "stderr detail");
    assert_eq!(diagnostic(&out, &Vec::new()), "stdout detail");
}

#[test]
fn dispatch_spawn_failure_cleans_but_executed_failure_retains() {
    assert!(!dispatch_result_requires_retention(
        &ExternalFailure::Spawn("not found".into())
    ));
    assert!(dispatch_result_requires_retention(
        &ExternalFailure::Executed("network error".into())
    ));
    let stderr = ExternalFailure::failed("sh", &b"stdout".to_vec(), &b"stderr".to_vec());
    assert!(matches!(&stderr, ExternalFailure::Executed(detail) if detail.contains("stderr")));
    assert!(dispatch_result_requires_retention(&stderr));
    let stdout = ExternalFailure::failed("sh", &b"stdout".to_vec(), &Vec::new());
    assert!(matches!(&stdout, ExternalFailure::Executed(detail) if detail.contains("stdout")));
    assert!(matches!(
        ExternalFailure::not_started("/definitely/missing/devspace-command", "gone"),
        ExternalFailure::Spawn(_)
    ));
}

#[test]
fn list_format_and_dispatch_arguments_are_stable() {
    assert_eq!(
        format_run(&run(7)),
        "7\tin_progress\tDevspace session-a\turl"
    );
    assert_eq!(
        dispatch_args(DurationMinutes::Sixty, 64, "ssh-ed25519 key", "session-a"),
        [
            "workflow",
            "run",
            WORKFLOW,
            "--repo",
            REPO,
            "--ref",
            "main",
            "-f",
            "duration=60",
            "-f",
            "cores=64",
            "-f",
            "ssh_public_key=ssh-ed25519 key",
            "-f",
            "session_name=session-a",
        ]
    );
}

#[test]
fn workflow_ownership_and_lifecycle_guard() {
    let managed = Details {
        workflow_name: WORKFLOW_NAME.into(),
        status: "in_progress".into(),
        conclusion: None,
    };
    let unrelated = Details {
        workflow_name: "Other workflow".into(),
        status: "in_progress".into(),
        conclusion: None,
    };
    assert!(is_managed(&managed));
    assert!(!is_managed(&unrelated));
    assert!(ensure_active_details(&managed).is_ok());
    let completed = Details {
        workflow_name: WORKFLOW_NAME.into(),
        status: "completed".into(),
        conclusion: Some("failure".into()),
    };
    assert!(ensure_active_details(&completed)
        .unwrap_err()
        .contains("failure"));
    assert_eq!(stop_decision(&managed).unwrap(), StopDecision::Active);
    assert_eq!(stop_decision(&completed).unwrap(), StopDecision::Completed);
    assert!(stop_decision(&unrelated).is_err());
    let race = Details {
        status: "cancelled".into(),
        ..managed
    };
    assert!(stop_decision(&race).is_err());
}

#[test]
fn arguments_are_checked() {
    assert_eq!(parse_run_id("0042"), Ok(42));
    assert_eq!(parse_run_id("18446744073709551615"), Ok(u64::MAX));
    for text in ["", "x", "+1", "-1", "1 ", "٣"] {
        assert_eq!(parse_run_id(text), Err("run ID must be numeric".to_owned()), "{text:?}");
    }
    assert_eq!(
        parse_run_id("18446744073709551616"),
        Err("run ID is too large".to_owned())
    );
    let s = sizes(&[("4", "small"), ("16", "medium"), ("64", "large")]);
    assert_eq!(parse_cores("16", Ok(&s)), Ok(16));
    for (value, want) in [
        ("8", "cores must be one of the choices in runner-sizes.json (got 8)"),
        ("+4", "cores must be one of the choices in runner-sizes.json (got +4)"),
        ("x", "cores must be numeric"),
        ("4294967296", "cores must be numeric"),
    ] {
        assert_eq!(parse_cores(value, Ok(&s)), Err(want.to_owned()), "{value}");
    }
    assert_eq!(
        parse_cores("4", Err("no file")),
        Err("unable to validate cores: no file".to_owned())
    );
    assert_eq!(parse_cores("x", Err("no file")), Err("cores must be numeric".to_owned()));
    assert_eq!(require_size(&s, 64), Ok(()));
    assert_eq!(
        require_size(&s, 8),
        Err("runner-sizes.json does not define 8 cores".to_owned())
    );
    for (d, text) in [
        (DurationMinutes::Thirty, "30"),
        (DurationMinutes::Sixty, "60"),
        (DurationMinutes::OneTwenty, "120"),
        (DurationMinutes::TwoForty, "240"),
    ] {
        assert_eq!(d.as_str(), text);
    }
}

#[test]
fn sizes_need_numbers_and_labels() {
    assert_eq!(runner_sizes(sizes(&[("4", "a"), ("16", "b")])).unwrap().len(), 2);
    for bad in [&[][..], &[("x", "a")], &[("4", " \t")], &[("4", "a"), ("5", "")]] {
        assert_eq!(
            runner_sizes(sizes(bad)).unwrap_err(),
            "runner-sizes.json must contain numeric core choices with non-empty labels"
        );
    }
}

#[test]
fn sessions_are_named_by_their_bytes() {
    let bytes: Vec<u8> = vec![0, 1, 15, 16, 127, 128, 255, 9, 10, 0xab, 2, 3, 4, 5, 6, 7];
    assert_eq!(session_name(&bytes), "session-00010f107f80ff090aab020304050607");
    assert_eq!(session_name(&vec![]), "session-");
}

#[test]
fn failures_say_what_the_program_said() {
    let failed = |out: &[u8], err: &[u8]| {
        ExternalFailure::failed("gh", &out.to_vec(), &err.to_vec()).detail().to_owned()
    };
    assert_eq!(failed(b"out", b" err\n"), "gh failed: err");
    assert_eq!(failed(b"\nout", b" \n"), "gh failed: out");
    assert_eq!(failed(b"", b""), "gh failed: command failed without diagnostics");
    assert_eq!(failed(b"", b"a\xffb"), "gh failed: a\u{fffd}b");
    assert_eq!(
        ExternalFailure::not_started("gh", "gone").detail(),
        "required command gh could not start: gone"
    );
    let e = ExternalFailure::not_collected("gh", "gone");
    assert_eq!(e.detail(), "gh started but could not be collected: gone");
    assert!(dispatch_result_requires_retention(&e));
}

#[test]
fn unknown_statuses_are_quoted() {
    assert_eq!(
        classify_status("a\"b\n").unwrap_err(),
        "unexpected workflow status \"a\\\"b\\n\""
    );
    let runs = vec![run(1), run_with_status(2, "x"), run_with_status(3, "y")];
    assert_eq!(
        check_statuses(&runs).unwrap_err(),
        "unexpected workflow status \"x\""
    );
    assert_eq!(active_runs(&runs).unwrap_err(), "unexpected workflow status \"x\"");
    assert_eq!(check_statuses(&vec![run(1)]), Ok(()));
}

#[test]
fn runs_are_listed_with_dashes() {
    let r = Run {
        database_id: None,
        created_at: timestamp("2026-01-01T00:00:02Z"),
        display_title: String::new(),
        status: String::new(),
        url: String::new(),
    };
    assert_eq!(format_run(&r), "-\t-\t-\t-");
}

#[test]
fn command_lines() {
    assert_eq!(
        list_args().join(" "),
        "run list --repo bootc-dev/cgwalters-devspace-sandbox --workflow devspace.yml --branch main --event workflow_dispatch --limit 100 --json databaseId,createdAt,displayTitle,status,url"
    );
    assert_eq!(
        view_args(9).join(" "),
        "run view 9 --repo bootc-dev/cgwalters-devspace-sandbox --json workflowName,status,conclusion"
    );
    assert_eq!(
        cancel_args(9).join(" "),
        "run cancel 9 --repo bootc-dev/cgwalters-devspace-sandbox"
    );
    assert_eq!(keygen_args("/k"), ["-q", "-t", "ed25519", "-N", "", "-f", "/k"]);
    assert_eq!(
        ssh_command("/k", "/h", "x"),
        [
            "ssh", "-i", "/k", "-o", "UserKnownHostsFile=/h", "-o",
            "StrictHostKeyChecking=accept-new", "-o", "IdentitiesOnly=yes", "runner@x"
        ]
    );
    assert_eq!(
        ssh_probe_command("/k", "/h", "x")[..6],
        ["ssh", "-o", "BatchMode=yes", "-o", "ConnectTimeout=8", "-i"]
    );
    assert_eq!(state_path("/s", 12), "/s/12");
}

#[test]
fn completed_runs_say_how() {
    let d = |conclusion: Option<&str>| Details {
        workflow_name: WORKFLOW_NAME.into(),
        status: "completed".into(),
        conclusion: conclusion.map(str::to_owned),
    };
    assert_eq!(ensure_active_details(&d(None)).unwrap_err(), "workflow completed (unknown)");
    assert_eq!(
        ensure_active_details(&d(Some("success"))).unwrap_err(),
        "workflow completed (success)"
    );
    let other = Details {
        workflow_name: "x".into(),
        ..d(None)
    };
    assert_eq!(
        ensure_active_details(&other).unwrap_err(),
        "run is not a Development runner workflow"
    );
}

#[test]
fn sizes_are_read_from_json() {
    let read = sizes_in(r#"{"8": "eight", "16": "sixteen"}"#).unwrap();
    let entries: Vec<_> = (0..read.len())
        .map(|i| (read.key(i), read.value(i).as_str()))
        .collect();
    assert_eq!(entries, [("16", "sixteen"), ("8", "eight")]);
    assert_eq!(parse_cores("8", Ok(&read)), Ok(8));
    for text in ["", "{", "[]", "4", r#"{"4": 4}"#, r#"{"4": "x", "8": null}"#] {
        assert_eq!(
            sizes_in(text).unwrap_err(),
            "parsing runner-sizes.json",
            "{text}"
        );
    }
    for text in ["{}", r#"{"four": "x"}"#, r#"{"4": "x", "8": " "}"#] {
        assert_eq!(
            sizes_in(text).unwrap_err(),
            "runner-sizes.json must contain numeric core choices with non-empty labels",
            "{text}"
        );
    }
}

#[test]
fn state_is_under_the_first_absolute_path() {
    assert_eq!(state_base(Some("/s"), Some("bad")), Ok(StateBase::Xdg));
    assert_eq!(state_base(Some("s"), Some("/h")), Ok(StateBase::Home));
    assert_eq!(state_base(None, Some("/h")), Ok(StateBase::Home));
    assert_eq!(
        state_base(Some(""), Some("h")),
        state_root_from(Some(""), Some("h")).map(|_| StateBase::Home)
    );
    assert_eq!(StateBase::Xdg.below(), "devspace");
    assert_eq!(StateBase::Home.below(), ".local/state/devspace");
}
