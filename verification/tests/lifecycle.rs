use bot_harness::devspace::{Details, ExternalFailure, Run, WORKFLOW_NAME};
use bot_harness::lifecycle::{
    after_place, no_key, no_place, probe_step, ssh_step, stop_step, stop_takes, PlaceStep, Placed,
    ProbeAction, SshAction, SshEvent, Start, StartAction, StartEvent, StopAction, StopEvent,
    StopPhase, LIST_TRIES, PLACE_TRIES, PROBE_POLL_MS, PROBE_WAIT_S,
};
use bot_harness::moment::Moment;

const NOW: Moment = Moment {
    secs: 100,
    nanos: 5,
};

fn details(status: &str) -> Details {
    Details {
        workflow_name: WORKFLOW_NAME.into(),
        status: status.into(),
        conclusion: None,
    }
}

fn run(id: Option<u64>) -> Run {
    Run {
        database_id: id,
        created_at: NOW,
        display_title: "Devspace session-a".into(),
        status: "queued".into(),
        url: "u".into(),
    }
}

fn dispatched() -> Start {
    let mut s = Start::new("/p".into(), "session-a".into());
    assert!(!s.retained);
    assert!(matches!(s.next(StartEvent::Keyed(Ok(()))), StartAction::Dispatch));
    assert!(!s.retained);
    assert!(matches!(s.next(StartEvent::Dispatched(NOW, Ok(()))), StartAction::List));
    assert!(s.retained);
    s
}

fn fails(action: StartAction) -> String {
    match action {
        StartAction::Fail(m) => m,
        other => panic!("{other:?}"),
    }
}

#[test]
fn places_are_tried_often_enough() {
    assert_eq!(PLACE_TRIES, 16);
    assert_eq!(after_place(1, Placed::Made), PlaceStep::Use);
    assert_eq!(after_place(1, Placed::Failed), PlaceStep::Fail);
    assert_eq!(after_place(15, Placed::Taken), PlaceStep::Retry);
    assert_eq!(after_place(16, Placed::Taken), PlaceStep::GiveUp);
    assert_eq!(
        no_place(),
        "could not create a unique pending state directory after repeated collisions"
    );
}

#[test]
fn a_started_run_is_adopted() {
    let mut s = dispatched();
    let early = Run {
        created_at: NOW.earlier(3),
        ..run(Some(6))
    };
    assert!(matches!(s.next(StartEvent::Listed(Ok(vec![early]))), StartAction::WaitAndList));
    let list = vec![run(Some(7))];
    assert!(matches!(s.next(StartEvent::Listed(Ok(list))), StartAction::Look(7)));
    match s.next(StartEvent::Occupied(false)) {
        StartAction::Adopt(7, line) => assert_eq!(line, "Run 7: u"),
        other => panic!("{other:?}"),
    }
}

#[test]
fn keys_are_kept_once_a_run_may_have_them() {
    let tail = "; retain /p and locate session session-a in GitHub";
    let mut s = Start::new("/p".into(), "session-a".into());
    let e = ExternalFailure::Executed("bad".into());
    assert_eq!(fails(s.next(StartEvent::Keyed(Err(e)))), "key generation failed: bad");
    assert!(!s.retained);

    let mut s = Start::new("/p".into(), "session-a".into());
    s.next(StartEvent::Keyed(Ok(())));
    let e = ExternalFailure::Spawn("gone".into());
    assert_eq!(
        fails(s.next(StartEvent::Dispatched(NOW, Err(e)))),
        "dispatch command could not start: gone"
    );
    assert!(!s.retained);

    let mut s = Start::new("/p".into(), "session-a".into());
    s.next(StartEvent::Keyed(Ok(())));
    let e = ExternalFailure::Executed("net".into());
    assert_eq!(
        fails(s.next(StartEvent::Dispatched(NOW, Err(e)))),
        format!("dispatch result is uncertain (net){tail}")
    );
    assert!(s.retained);

    let mut s = dispatched();
    assert_eq!(
        fails(s.next(StartEvent::Listed(Err("x".into())))),
        format!("workflow was dispatched but correlation is uncertain (x){tail}")
    );
    let mut s = dispatched();
    assert_eq!(
        fails(s.next(StartEvent::Listed(Ok(vec![run(None)])))),
        format!("workflow was dispatched but correlation failed{tail}")
    );
    let mut s = dispatched();
    s.next(StartEvent::Listed(Ok(vec![run(Some(7))])));
    assert_eq!(
        fails(s.next(StartEvent::Occupied(true))),
        format!("workflow was dispatched but local state already exists for run 7{tail}")
    );
    assert!(s.retained);
}

#[test]
fn runs_are_looked_for_a_while() {
    let mut s = dispatched();
    for _ in 1..LIST_TRIES {
        // Two that fit tell nothing.
        let list = vec![run(Some(1)), run(Some(2))];
        assert!(matches!(s.next(StartEvent::Listed(Ok(list))), StartAction::WaitAndList));
    }
    match s.next(StartEvent::Listed(Ok(vec![]))) {
        StartAction::WaitAndFail(m) => assert_eq!(
            m,
            "workflow was dispatched but could not be correlated safely; retain /p and use GitHub to locate session session-a"
        ),
        other => panic!("{other:?}"),
    }
    assert_eq!(LIST_TRIES, 30);
}

#[test]
fn ssh_waits_for_the_runner() {
    assert!(matches!(ssh_step(5, SshEvent::Time(true)), SshAction::View));
    assert!(matches!(
        ssh_step(5, SshEvent::Viewed(Ok(details("queued")))),
        SshAction::Probe
    ));
    assert!(matches!(ssh_step(5, SshEvent::Probed(Ok(false))), SshAction::Wait));
    assert!(matches!(ssh_step(5, SshEvent::Probed(Ok(true))), SshAction::Connect));
    for (event, want) in [
        (
            SshEvent::Time(false),
            "ordinary SSH for workflow 5 was not ready before timeout",
        ),
        (SshEvent::Viewed(Err("gh".into())), "gh"),
        (
            SshEvent::Viewed(Ok(details("completed"))),
            "workflow completed (unknown)",
        ),
        (SshEvent::Probed(Err("no ssh".into())), "no ssh"),
    ] {
        match ssh_step(5, event) {
            SshAction::Fail(m) => assert_eq!(m, want),
            other => panic!("{other:?}"),
        }
    }
    assert_eq!(no_key(5), "no managed key for run 5; it may have been started elsewhere");
}

#[test]
fn stop_removes_what_is_over() {
    let viewed = |status: &str| StopEvent::Viewed(Ok(details(status)));
    let (_, action) = stop_step(8, StopPhase::Viewing, viewed("completed"));
    assert!(matches!(action, StopAction::RemoveAndSay(m) if m == "Run 8 already completed; removed local state"));

    let (phase, action) = stop_step(8, StopPhase::Viewing, viewed("queued"));
    assert!(matches!(action, StopAction::Cancel));
    let (_, action) = stop_step(8, phase, StopEvent::Cancelled(Ok(())));
    assert!(matches!(action, StopAction::RemoveAndSay(m) if m == "Cancelled run 8"));

    let failed = || {
        let (phase, action) = stop_step(
            8,
            StopPhase::Cancelling,
            StopEvent::Cancelled(Err(ExternalFailure::Executed("gh failed: x".into()))),
        );
        assert!(matches!(action, StopAction::View));
        phase
    };
    let (_, action) = stop_step(8, failed(), viewed("completed"));
    assert!(matches!(action, StopAction::SayAndRemove(m) if m == "Run 8 completed while cancellation was requested; removed local state"));
    let (_, action) = stop_step(8, failed(), viewed("in_progress"));
    assert!(matches!(action, StopAction::Fail(m) if m == "gh failed: x"));
    let (_, action) = stop_step(8, failed(), viewed("odd"));
    assert!(matches!(action, StopAction::Fail(m) if m == "unexpected workflow status \"odd\""));
    let (_, action) = stop_step(8, StopPhase::Viewing, StopEvent::Viewed(Err("gh".into())));
    assert!(matches!(action, StopAction::Fail(m) if m == "gh"));
}

#[test]
fn moments() {
    let a = Moment { secs: 1, nanos: 9 };
    let b = Moment { secs: 2, nanos: 0 };
    assert!(b.is_since(a) && a.is_since(a) && !a.is_since(b));
    assert_eq!(a.seconds_to(b), 0);
    assert_eq!(a.earlier(3), Moment { secs: -2, nanos: 9 });
    assert_eq!(a.rfc3339().as_deref(), Some("1970-01-01T00:00:01Z"));
    assert_eq!(Moment { secs: i64::MAX, nanos: 0 }.rfc3339(), None);
}

#[test]
fn probes_are_killed_when_late() {
    assert_eq!((PROBE_WAIT_S, PROBE_POLL_MS), (12, 100));
    for late in [false, true] {
        assert_eq!(probe_step(Some(true), late), ProbeAction::Tell(true));
        assert_eq!(probe_step(Some(false), late), ProbeAction::Tell(false));
    }
    assert_eq!(probe_step(None, false), ProbeAction::Wait);
    assert_eq!(probe_step(None, true), ProbeAction::KillAndTell(false));
}

#[test]
fn steps_come_in_order() {
    let mut s = Start::new("/p".into(), "session-a".into());
    assert!(s.takes(&StartEvent::Keyed(Ok(()))));
    assert!(!s.takes(&StartEvent::Listed(Ok(vec![]))));
    s.next(StartEvent::Keyed(Ok(())));
    assert!(s.takes(&StartEvent::Dispatched(NOW, Ok(()))));
    let first = Moment {
        secs: i64::MIN + 1,
        nanos: 0,
    };
    assert!(!s.takes(&StartEvent::Dispatched(first, Ok(()))));
    let mut s = dispatched();
    assert!(s.takes(&StartEvent::Listed(Ok(vec![]))));
    assert!(!s.takes(&StartEvent::Occupied(false)));
    s.next(StartEvent::Listed(Ok(vec![run(Some(1))])));
    assert!(s.takes(&StartEvent::Occupied(false)));
    let viewed = || StopEvent::Viewed(Ok(details("queued")));
    let cancelled = || StopEvent::Cancelled(Ok(()));
    for (phase, views, cancels) in [
        (StopPhase::Viewing, true, false),
        (StopPhase::Cancelling, false, true),
        (StopPhase::Rechecking("e".into()), true, false),
        (StopPhase::Over, false, false),
    ] {
        assert_eq!(stop_takes(&phase, &viewed()), views, "{phase:?}");
        assert_eq!(stop_takes(&phase, &cancelled()), cancels, "{phase:?}");
    }
}
