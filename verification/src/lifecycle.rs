//! The commands of `devspace`, step by step: what each does next, from what
//! `gh`, `ssh` and the file system answered. `start` dispatches a runner,
//! `ssh` connects to it, `stop` cancels it and removes its local state.

use crate::devspace::{
    dispatch_result_requires_retention, ensure_active_details, failure_text, find_run,
    inactive_reason, is_only_run, run_views, stop_decision, stop_of, Details, DetailsView,
    ExternalFailure, Run, RunView, StopDecision,
};
use crate::moment::Moment;
use crate::text::{decimal, number};
use vstd::prelude::*;

verus! {

// ---- start: a place for the key ----------------------------------------

/// How often `start` looks for a new session's place.
pub const PLACE_TRIES: u32 = 16;

/// What came of making the directory of a new session.
#[derive(Debug, Clone, Copy, PartialEq, Eq, Structural)]
pub enum Placed {
    Made,
    /// Another session has it.
    Taken,
    /// It could not be made at all.
    Failed,
}

/// What `start` does about it.
#[derive(Debug, Clone, Copy, PartialEq, Eq, Structural)]
pub enum PlaceStep {
    /// Put the session there.
    Use,
    /// Try with another session.
    Retry,
    /// Fail, with what went wrong.
    Fail,
    /// Fail: every place that was tried is taken.
    GiveUp,
}

/// What to do after TRIES tries, this one among them.
pub open spec fn place_step(tries: u32, placed: Placed) -> PlaceStep {
    match placed {
        Placed::Made => PlaceStep::Use,
        Placed::Failed => PlaceStep::Fail,
        Placed::Taken => if tries < PLACE_TRIES {
            PlaceStep::Retry
        } else {
            PlaceStep::GiveUp
        },
    }
}

/// What to do after TRIES tries, this one among them.
pub fn after_place(tries: u32, placed: Placed) -> (r: PlaceStep)
    ensures
        r == place_step(tries, placed),
{
    match placed {
        Placed::Made => PlaceStep::Use,
        Placed::Failed => PlaceStep::Fail,
        Placed::Taken => if tries < PLACE_TRIES {
            PlaceStep::Retry
        } else {
            PlaceStep::GiveUp
        },
    }
}

/// What `start` says when it gives up.
pub fn no_place() -> (r: &'static str)
    ensures
        r@ == "could not create a unique pending state directory after repeated collisions"@,
{
    "could not create a unique pending state directory after repeated collisions"
}

// ---- start: dispatching a run ------------------------------------------

/// How often `start` looks for the run that it dispatched.
pub const LIST_TRIES: u32 = 30;

/// How far the clock of the runs may be behind, in seconds.
pub const CLOCK_SLACK_S: u32 = 2;

/// How far `start` is.
#[derive(Debug, Clone, Copy, PartialEq, Eq, Structural)]
pub enum StartPhase {
    /// The key is being made.
    Keying,
    /// The run is being dispatched.
    Dispatching,
    /// The runs were listed this often; none from before this moment is
    /// the session's.
    Looking(u32, Moment),
    /// The run with this id was found.
    Found(u64),
    Over,
}

/// A run being started.
#[derive(Debug)]
pub struct Start {
    /// Where the key of the session is.
    pub path: String,
    pub session: String,
    /// Where the run is, once it was found.
    pub url: String,
    /// The key stays, whatever comes.
    pub retained: bool,
    pub phase: StartPhase,
}

/// A run being started.
#[verifier::ext_equal]
pub struct StartView {
    pub path: Seq<char>,
    pub session: Seq<char>,
    pub url: Seq<char>,
    pub retained: bool,
    pub phase: StartPhase,
}

impl View for Start {
    type V = StartView;

    open spec fn view(&self) -> StartView {
        StartView {
            path: self.path@,
            session: self.session@,
            url: self.url@,
            retained: self.retained,
            phase: self.phase,
        }
    }
}

/// What came of a step of `start`.
#[derive(Debug)]
pub enum StartEvent {
    /// `ssh-keygen` made the key.
    Keyed(Result<(), ExternalFailure>),
    /// `gh`, started at this moment, dispatched the run.
    Dispatched(Moment, Result<(), ExternalFailure>),
    /// `gh` listed the runs.
    Listed(Result<Vec<Run>, String>),
    /// Whether there is local state for the run already.
    Occupied(bool),
}

/// What came of a step of `start`.
pub enum StartEventView {
    Keyed(Option<(bool, Seq<char>)>),
    Dispatched(Moment, Option<(bool, Seq<char>)>),
    Listed(Result<Seq<RunView>, Seq<char>>),
    Occupied(bool),
}

/// A failure: whether the program was started, and what it says.
pub open spec fn failure_in(r: Result<(), ExternalFailure>) -> Option<(bool, Seq<char>)> {
    match r {
        Ok(_) => None,
        Err(e) => Some((e is Executed, failure_text(e))),
    }
}

impl View for StartEvent {
    type V = StartEventView;

    open spec fn view(&self) -> StartEventView {
        match self {
            StartEvent::Keyed(r) => StartEventView::Keyed(failure_in(*r)),
            StartEvent::Dispatched(at, r) => StartEventView::Dispatched(*at, failure_in(*r)),
            StartEvent::Listed(r) => StartEventView::Listed(
                match r {
                    Ok(runs) => Ok(run_views(runs@)),
                    Err(e) => Err(e@),
                },
            ),
            StartEvent::Occupied(b) => StartEventView::Occupied(*b),
        }
    }
}

/// What `start` does next.
#[derive(Debug)]
pub enum StartAction {
    /// Dispatch the run.
    Dispatch,
    /// List the runs.
    List,
    /// Wait two seconds, then list the runs again.
    WaitAndList,
    /// Wait two seconds, then fail with this.
    WaitAndFail(String),
    /// Find out whether there is local state for this run.
    Look(u64),
    /// Move the key to the local state of this run, then say this.
    Adopt(u64, String),
    /// Fail with this.
    Fail(String),
}

/// What `start` does next.
pub enum StartActionView {
    Dispatch,
    List,
    WaitAndList,
    WaitAndFail(Seq<char>),
    Look(u64),
    Adopt(u64, Seq<char>),
    Fail(Seq<char>),
}

impl View for StartAction {
    type V = StartActionView;

    open spec fn view(&self) -> StartActionView {
        match self {
            StartAction::Dispatch => StartActionView::Dispatch,
            StartAction::List => StartActionView::List,
            StartAction::WaitAndList => StartActionView::WaitAndList,
            StartAction::WaitAndFail(m) => StartActionView::WaitAndFail(m@),
            StartAction::Look(id) => StartActionView::Look(*id),
            StartAction::Adopt(id, m) => StartActionView::Adopt(*id, m@),
            StartAction::Fail(m) => StartActionView::Fail(m@),
        }
    }
}

/// Where the key is, and how to find its run.
pub open spec fn retain_text(s: StartView) -> Seq<char> {
    "; retain "@ + s.path + " and locate session "@ + s.session + " in GitHub"@
}

/// An event that can come in a phase of `start`.
pub open spec fn start_can_come(phase: StartPhase, event: StartEventView) -> bool {
    match (phase, event) {
        (StartPhase::Keying, StartEventView::Keyed(_)) => true,
        (StartPhase::Dispatching, StartEventView::Dispatched(at, _)) => at.secs - CLOCK_SLACK_S
            >= i64::MIN,
        (StartPhase::Looking(n, _), StartEventView::Listed(_)) => n < LIST_TRIES,
        (StartPhase::Found(_), StartEventView::Occupied(_)) => true,
        _ => false,
    }
}

/// `start` in another phase.
pub open spec fn in_phase(s: StartView, phase: StartPhase) -> StartView {
    StartView { phase, ..s }
}

/// What a run that was found leads to.
pub open spec fn found_run(s: StartView, run: RunView) -> (StartView, StartActionView) {
    match run.database_id {
        Some(id) => (
            StartView { url: run.url, phase: StartPhase::Found(id), ..s },
            StartActionView::Look(id),
        ),
        None => (
            in_phase(s, StartPhase::Over),
            StartActionView::Fail(
                "workflow was dispatched but correlation failed"@ + retain_text(s),
            ),
        ),
    }
}

/// The earliest a run dispatched at this moment can be from.
pub open spec fn since_dispatch(at: Moment) -> Moment {
    Moment { secs: (at.secs - CLOCK_SLACK_S) as i64, nanos: at.nanos }
}

/// What a list without the run leads to.
pub open spec fn no_run(s: StartView, tries: u32, since: Moment) -> (StartView, StartActionView) {
    if tries + 1 < LIST_TRIES {
        (
            in_phase(s, StartPhase::Looking((tries + 1) as u32, since)),
            StartActionView::WaitAndList,
        )
    } else {
        (
            in_phase(s, StartPhase::Over),
            StartActionView::WaitAndFail(
                "workflow was dispatched but could not be correlated safely; retain "@ + s.path
                    + " and use GitHub to locate session "@ + s.session,
            ),
        )
    }
}

/// What an event leads to: where `start` is then, and what it does.
pub open spec fn start_leads_to(
    s: StartView,
    event: StartEventView,
    after: StartView,
    action: StartActionView,
) -> bool {
    match (s.phase, event) {
        (_, StartEventView::Keyed(None)) => (after, action) == (
            in_phase(s, StartPhase::Dispatching),
            StartActionView::Dispatch,
        ),
        (_, StartEventView::Keyed(Some((_, e)))) => (after, action) == (
            in_phase(s, StartPhase::Over),
            StartActionView::Fail("key generation failed: "@ + e),
        ),
        (_, StartEventView::Dispatched(at, None)) => (after, action) == (
            StartView {
                retained: true,
                phase: StartPhase::Looking(0, since_dispatch(at)),
                ..s
            },
            StartActionView::List,
        ),
        (_, StartEventView::Dispatched(_, Some((true, e)))) => (after, action) == (
            StartView { retained: true, phase: StartPhase::Over, ..s },
            StartActionView::Fail("dispatch result is uncertain ("@ + e + ")"@ + retain_text(s)),
        ),
        (_, StartEventView::Dispatched(_, Some((false, e)))) => (after, action) == (
            in_phase(s, StartPhase::Over),
            StartActionView::Fail("dispatch command could not start: "@ + e),
        ),
        (_, StartEventView::Listed(Err(e))) => (after, action) == (
            in_phase(s, StartPhase::Over),
            StartActionView::Fail(
                "workflow was dispatched but correlation is uncertain ("@ + e + ")"@ + retain_text(
                    s,
                ),
            ),
        ),
        (StartPhase::Looking(tries, since), StartEventView::Listed(Ok(runs))) => {
            ||| exists|i: int|
                #![trigger runs[i]]
                is_only_run(runs, s.session, since, i) && (after, action) == found_run(
                    s,
                    runs[i],
                )
            ||| (forall|i: int| !#[trigger] is_only_run(runs, s.session, since, i)) && (
            after,
            action,
            ) == no_run(s, tries, since)
        },
        (StartPhase::Found(id), StartEventView::Occupied(false)) => (after, action) == (
            in_phase(s, StartPhase::Over),
            StartActionView::Adopt(id, "Run "@ + decimal(id as nat) + ": "@ + s.url),
        ),
        (StartPhase::Found(id), StartEventView::Occupied(true)) => (after, action) == (
            in_phase(s, StartPhase::Over),
            StartActionView::Fail(
                "workflow was dispatched but local state already exists for run "@ + decimal(
                    id as nat,
                ) + retain_text(s),
            ),
        ),
        _ => true,
    }
}

impl Start {
    /// A run to be started with the key at PATH.
    pub fn new(path: String, session: String) -> (r: Start)
        ensures
            r@ == (StartView {
                path: path@,
                session: session@,
                url: ""@,
                retained: false,
                phase: StartPhase::Keying,
            }),
    {
        Start { path, session, url: "".to_owned(), retained: false, phase: StartPhase::Keying }
    }

    fn retaining(&self, what: String) -> (r: String)
        ensures
            r@ == what@ + retain_text(self@),
    {
        let mut note = "; retain ".to_owned();
        note.append(self.path.as_str());
        note.append(" and locate session ");
        note.append(self.session.as_str());
        note.append(" in GitHub");
        let mut s = what;
        s.append(note.as_str());
        s
    }

    /// Whether EVENT can come now.
    pub fn takes(&self, event: &StartEvent) -> (r: bool)
        ensures
            r == start_can_come(self.phase, event@),
    {
        match (self.phase, event) {
            (StartPhase::Keying, StartEvent::Keyed(_)) => true,
            (StartPhase::Dispatching, StartEvent::Dispatched(at, _)) => at.secs >= i64::MIN
                + CLOCK_SLACK_S as i64,
            (StartPhase::Looking(n, _), StartEvent::Listed(_)) => n < LIST_TRIES,
            (StartPhase::Found(_), StartEvent::Occupied(_)) => true,
            _ => false,
        }
    }

    /// What to do on EVENT.
    pub fn next(&mut self, event: StartEvent) -> (action: StartAction)
        requires
            start_can_come(old(self).phase, event@),
        ensures
            start_leads_to(old(self)@, event@, final(self)@, action@),
    {
        match event {
            StartEvent::Keyed(Ok(_)) => {
                self.phase = StartPhase::Dispatching;
                StartAction::Dispatch
            },
            StartEvent::Keyed(Err(e)) => {
                self.phase = StartPhase::Over;
                let mut s = "key generation failed: ".to_owned();
                s.append(e.detail());
                StartAction::Fail(s)
            },
            StartEvent::Dispatched(at, Ok(_)) => {
                self.retained = true;
                self.phase = StartPhase::Looking(0, at.earlier(CLOCK_SLACK_S));
                StartAction::List
            },
            StartEvent::Dispatched(_, Err(e)) => {
                self.phase = StartPhase::Over;
                if dispatch_result_requires_retention(&e) {
                    self.retained = true;
                    let mut s = "dispatch result is uncertain (".to_owned();
                    s.append(e.detail());
                    s.append(")");
                    StartAction::Fail(self.retaining(s))
                } else {
                    let mut s = "dispatch command could not start: ".to_owned();
                    s.append(e.detail());
                    StartAction::Fail(s)
                }
            },
            StartEvent::Listed(Err(e)) => {
                self.phase = StartPhase::Over;
                let mut s = "workflow was dispatched but correlation is uncertain (".to_owned();
                s.append(e.as_str());
                s.append(")");
                StartAction::Fail(self.retaining(s))
            },
            StartEvent::Listed(Ok(runs)) => self.listed(&runs),
            StartEvent::Occupied(occupied) => {
                let id: u64 = match self.phase {
                    StartPhase::Found(id) => id,
                    _ => 0,
                };
                self.phase = StartPhase::Over;
                if occupied {
                    let mut s =
                        "workflow was dispatched but local state already exists for run ".to_owned();
                    s.append(number(id).as_str());
                    StartAction::Fail(self.retaining(s))
                } else {
                    let mut line = run_says(id, ": ");
                    line.append(self.url.as_str());
                    StartAction::Adopt(id, line)
                }
            },
        }
    }

    fn listed(&mut self, runs: &Vec<Run>) -> (action: StartAction)
        requires
            old(self).phase is Looking,
            old(self).phase->Looking_0 < LIST_TRIES,
        ensures
            start_leads_to(
                old(self)@,
                StartEventView::Listed(Ok(run_views(runs@))),
                final(self)@,
                action@,
            ),
    {
        let (tries, since): (u32, Moment) = match self.phase {
            StartPhase::Looking(n, since) => (n, since),
            _ => (0, Moment { secs: 0, nanos: 0 }),
        };
        let ghost all = run_views(runs@);
        match find_run(self.session.as_str(), since, runs) {
            Some(run) => {
                let ghost i = choose|i: int| #[trigger]
                    is_only_run(all, self.session@, since, i) && run@ == runs@[i]@;
                assert(all[i] == run@);
                match run.database_id {
                    Some(id) => {
                        self.url = run.url.clone();
                        self.phase = StartPhase::Found(id);
                        StartAction::Look(id)
                    },
                    None => {
                        self.phase = StartPhase::Over;
                        let s = "workflow was dispatched but correlation failed".to_owned();
                        StartAction::Fail(self.retaining(s))
                    },
                }
            },
            None => {
                if tries + 1 < LIST_TRIES {
                    self.phase = StartPhase::Looking(tries + 1, since);
                    StartAction::WaitAndList
                } else {
                    self.phase = StartPhase::Over;
                    let mut s =
                        "workflow was dispatched but could not be correlated safely; retain ".to_owned();
                    s.append(self.path.as_str());
                    s.append(" and use GitHub to locate session ");
                    s.append(self.session.as_str());
                    StartAction::WaitAndFail(s)
                }
            },
        }
    }
}

/// The key is kept once the run is looked for, and not before it was
/// dispatched.
pub open spec fn start_well_formed(s: StartView) -> bool {
    match s.phase {
        StartPhase::Keying => !s.retained,
        StartPhase::Dispatching => !s.retained,
        StartPhase::Looking(_, _) => s.retained,
        StartPhase::Found(_) => s.retained,
        StartPhase::Over => true,
    }
}

/// From the dispatch on the key is kept, unless `gh` was never started.
pub proof fn law_dispatched_keys_are_kept(
    s: StartView,
    event: StartEventView,
    after: StartView,
    action: StartActionView,
)
    requires
        start_well_formed(s),
        start_can_come(s.phase, event),
        start_leads_to(s, event, after, action),
    ensures
        start_well_formed(after),
        s.retained ==> after.retained,
        match event {
            StartEventView::Keyed(_) => !after.retained,
            StartEventView::Dispatched(_, None) => after.retained,
            StartEventView::Dispatched(_, Some((executed, _))) => after.retained == executed,
            _ => after.retained,
        },
{
}

/// Whatever `start` fails with once the key is kept says where the key is
/// and which session to look for.
pub proof fn law_kept_keys_are_named(
    s: StartView,
    event: StartEventView,
    after: StartView,
    action: StartActionView,
)
    requires
        start_well_formed(s),
        start_can_come(s.phase, event),
        start_leads_to(s, event, after, action),
        after.retained,
    ensures
        action is Fail ==> retain_text(s).is_suffix_of(action->Fail_0),
        action is WaitAndFail ==> (s.path + " and use GitHub to locate session "@
            + s.session).is_suffix_of(action->WaitAndFail_0),
{
    if action is Fail {
        let text = action->Fail_0;
        let tail = retain_text(s);
        assert(text.subrange(text.len() - tail.len(), text.len() as int) =~= tail);
    }
    if action is WaitAndFail {
        let text = action->WaitAndFail_0;
        let tail = s.path + " and use GitHub to locate session "@ + s.session;
        assert(text.subrange(text.len() - tail.len(), text.len() as int) =~= tail);
    }
}

/// How many steps `start` has before it at most.
pub open spec fn start_steps_left(phase: StartPhase) -> int {
    match phase {
        StartPhase::Keying => LIST_TRIES + 4,
        StartPhase::Dispatching => LIST_TRIES + 3,
        StartPhase::Looking(n, _) => LIST_TRIES - n + 2,
        StartPhase::Found(_) => 1,
        StartPhase::Over => 0,
    }
}

/// Every step takes `start` nearer to its end: it lists the runs
/// LIST_TRIES times at most.
pub proof fn law_start_ends(
    s: StartView,
    event: StartEventView,
    after: StartView,
    action: StartActionView,
)
    requires
        start_can_come(s.phase, event),
        start_leads_to(s, event, after, action),
    ensures
        0 <= start_steps_left(after.phase) < start_steps_left(s.phase),
{
}

/// A run is adopted only where it is the one run of the session since the
/// dispatch, with an id, and nothing is there for it yet; what is said then
/// is its id and where it is.
pub proof fn law_only_the_sessions_run_is_adopted(
    s: StartView,
    event: StartEventView,
    after: StartView,
    action: StartActionView,
)
    requires
        start_can_come(s.phase, event),
        start_leads_to(s, event, after, action),
    ensures
        action is Adopt ==> s.phase == StartPhase::Found(action->Adopt_0) && event
            == StartEventView::Occupied(false) && action->Adopt_1 == "Run "@ + decimal(
            action->Adopt_0 as nat,
        ) + ": "@ + s.url,
        after.phase is Found ==> event is Listed && event->Listed_0 is Ok && exists|i: int|
            #![trigger (event->Listed_0->Ok_0)[i]]
            is_only_run(event->Listed_0->Ok_0, s.session, s.phase->Looking_1, i) && (
            event->Listed_0->Ok_0)[i].database_id == Some(after.phase->Found_0) && (
            event->Listed_0->Ok_0)[i].url == after.url,
{
}

// ---- ssh ---------------------------------------------------------------

/// What came of a step of `ssh`.
#[derive(Debug)]
pub enum SshEvent {
    /// Whether there is time left to wait for the runner.
    Time(bool),
    /// `gh` viewed the run.
    Viewed(Result<Details, String>),
    /// Whether the runner takes connections.
    Probed(Result<bool, String>),
}

/// What came of a step of `ssh`.
pub enum SshEventView {
    Time(bool),
    Viewed(Result<DetailsView, Seq<char>>),
    Probed(Result<bool, Seq<char>>),
}

impl View for SshEvent {
    type V = SshEventView;

    open spec fn view(&self) -> SshEventView {
        match self {
            SshEvent::Time(left) => SshEventView::Time(*left),
            SshEvent::Viewed(r) => SshEventView::Viewed(
                match r {
                    Ok(d) => Ok(d@),
                    Err(e) => Err(e@),
                },
            ),
            SshEvent::Probed(r) => SshEventView::Probed(
                match r {
                    Ok(b) => Ok(*b),
                    Err(e) => Err(e@),
                },
            ),
        }
    }
}

/// What `ssh` does next.
#[derive(Debug)]
pub enum SshAction {
    /// View the run.
    View,
    /// Find out whether the runner takes connections.
    Probe,
    /// Connect.
    Connect,
    /// Wait two seconds, then see whether there is time left.
    Wait,
    /// Fail with this.
    Fail(String),
}

/// What `ssh` does next.
pub enum SshActionView {
    View,
    Probe,
    Connect,
    Wait,
    Fail(Seq<char>),
}

impl View for SshAction {
    type V = SshActionView;

    open spec fn view(&self) -> SshActionView {
        match self {
            SshAction::View => SshActionView::View,
            SshAction::Probe => SshActionView::Probe,
            SshAction::Connect => SshActionView::Connect,
            SshAction::Wait => SshActionView::Wait,
            SshAction::Fail(m) => SshActionView::Fail(m@),
        }
    }
}

/// What `ssh` says of a run it has no key of.
pub fn no_key(id: u64) -> (r: String)
    ensures
        r@ == "no managed key for run "@ + decimal(id as nat)
            + "; it may have been started elsewhere"@,
{
    let mut s = "no managed key for run ".to_owned();
    s.append(number(id).as_str());
    s.append("; it may have been started elsewhere");
    s
}

/// What `ssh` does on an event: it connects once the runner takes
/// connections, and waits for that as long as the run goes on and there is
/// time.
pub open spec fn ssh_next(id: u64, event: SshEventView) -> SshActionView {
    match event {
        SshEventView::Time(true) => SshActionView::View,
        SshEventView::Time(false) => SshActionView::Fail(
            "ordinary SSH for workflow "@ + decimal(id as nat)
                + " was not ready before timeout"@,
        ),
        SshEventView::Viewed(Err(e)) => SshActionView::Fail(e),
        SshEventView::Viewed(Ok(details)) => match inactive_reason(details) {
            Some(e) => SshActionView::Fail(e),
            None => SshActionView::Probe,
        },
        SshEventView::Probed(Err(e)) => SshActionView::Fail(e),
        SshEventView::Probed(Ok(true)) => SshActionView::Connect,
        SshEventView::Probed(Ok(false)) => SshActionView::Wait,
    }
}

/// What `ssh` to run ID does on EVENT.
pub fn ssh_step(id: u64, event: SshEvent) -> (action: SshAction)
    ensures
        action@ == ssh_next(id, event@),
{
    match event {
        SshEvent::Time(true) => SshAction::View,
        SshEvent::Time(false) => {
            let mut s = "ordinary SSH for workflow ".to_owned();
            s.append(number(id).as_str());
            s.append(" was not ready before timeout");
            SshAction::Fail(s)
        },
        SshEvent::Viewed(Err(e)) => SshAction::Fail(e),
        SshEvent::Viewed(Ok(details)) => match ensure_active_details(&details) {
            Err(e) => SshAction::Fail(e),
            Ok(_) => SshAction::Probe,
        },
        SshEvent::Probed(Err(e)) => SshAction::Fail(e),
        SshEvent::Probed(Ok(true)) => SshAction::Connect,
        SshEvent::Probed(Ok(false)) => SshAction::Wait,
    }
}

/// How long a probe of a runner may take, in seconds.
pub const PROBE_WAIT_S: u64 = 12;

/// How long `ssh` waits before it looks at a probe again, in milliseconds.
pub const PROBE_POLL_MS: u64 = 100;

/// What `ssh` does about a probe of a runner.
#[derive(Debug, Clone, Copy, PartialEq, Eq, Structural)]
pub enum ProbeAction {
    /// The probe is over: whether the runner takes connections.
    Tell(bool),
    /// Kill the probe, then it is over: whether the runner takes connections.
    KillAndTell(bool),
    /// Wait, then look at it again.
    Wait,
}

/// What `ssh` does about a probe of a runner, which has EXITED, with success
/// or without, or goes on; LATE where its time is over. A probe that has
/// exited tells, late or not.
pub fn probe_step(exited: Option<bool>, late: bool) -> (r: ProbeAction)
    ensures
        r == match exited {
            Some(success) => ProbeAction::Tell(success),
            None => if late {
                ProbeAction::KillAndTell(false)
            } else {
                ProbeAction::Wait
            },
        },
{
    match exited {
        Some(success) => ProbeAction::Tell(success),
        None => if late {
            ProbeAction::KillAndTell(false)
        } else {
            ProbeAction::Wait
        },
    }
}

/// A runner is probed only while its run is managed here and goes on.
pub proof fn law_only_active_runs_are_probed(id: u64, event: SshEventView)
    ensures
        ssh_next(id, event) is Probe <==> event is Viewed && event->Viewed_0 is Ok
            && inactive_reason(event->Viewed_0->Ok_0) is None,
        ssh_next(id, event) is Connect <==> event is Probed && event->Probed_0 == Ok::<
            bool,
            Seq<char>,
        >(true),
{
}

// ---- stop --------------------------------------------------------------

/// How far `stop` is.
#[derive(Debug)]
pub enum StopPhase {
    /// The run is being viewed.
    Viewing,
    /// It is being cancelled.
    Cancelling,
    /// It could not be cancelled, and is being viewed again.
    Rechecking(String),
    Over,
}

/// How far `stop` is.
pub enum StopPhaseView {
    Viewing,
    Cancelling,
    Rechecking(Seq<char>),
    Over,
}

impl View for StopPhase {
    type V = StopPhaseView;

    open spec fn view(&self) -> StopPhaseView {
        match self {
            StopPhase::Viewing => StopPhaseView::Viewing,
            StopPhase::Cancelling => StopPhaseView::Cancelling,
            StopPhase::Rechecking(e) => StopPhaseView::Rechecking(e@),
            StopPhase::Over => StopPhaseView::Over,
        }
    }
}

/// What came of a step of `stop`.
#[derive(Debug)]
pub enum StopEvent {
    /// `gh` viewed the run.
    Viewed(Result<Details, String>),
    /// `gh` cancelled it.
    Cancelled(Result<(), ExternalFailure>),
}

/// What came of a step of `stop`.
pub enum StopEventView {
    Viewed(Result<DetailsView, Seq<char>>),
    Cancelled(Option<(bool, Seq<char>)>),
}

impl View for StopEvent {
    type V = StopEventView;

    open spec fn view(&self) -> StopEventView {
        match self {
            StopEvent::Viewed(r) => StopEventView::Viewed(
                match r {
                    Ok(d) => Ok(d@),
                    Err(e) => Err(e@),
                },
            ),
            StopEvent::Cancelled(r) => StopEventView::Cancelled(failure_in(*r)),
        }
    }
}

/// What `stop` does next.
#[derive(Debug)]
pub enum StopAction {
    /// Cancel the run.
    Cancel,
    /// View the run again.
    View,
    /// Remove the local state of the run, then say this.
    RemoveAndSay(String),
    /// Say this, then remove the local state of the run.
    SayAndRemove(String),
    /// Fail with this.
    Fail(String),
}

/// What `stop` does next.
pub enum StopActionView {
    Cancel,
    View,
    RemoveAndSay(Seq<char>),
    SayAndRemove(Seq<char>),
    Fail(Seq<char>),
}

impl View for StopAction {
    type V = StopActionView;

    open spec fn view(&self) -> StopActionView {
        match self {
            StopAction::Cancel => StopActionView::Cancel,
            StopAction::View => StopActionView::View,
            StopAction::RemoveAndSay(m) => StopActionView::RemoveAndSay(m@),
            StopAction::SayAndRemove(m) => StopActionView::SayAndRemove(m@),
            StopAction::Fail(m) => StopActionView::Fail(m@),
        }
    }
}

/// An event that can come in a phase of `stop`.
pub open spec fn stop_can_come(phase: StopPhaseView, event: StopEventView) -> bool {
    match (phase, event) {
        (StopPhaseView::Viewing, StopEventView::Viewed(_)) => true,
        (StopPhaseView::Cancelling, StopEventView::Cancelled(_)) => true,
        (StopPhaseView::Rechecking(_), StopEventView::Viewed(_)) => true,
        _ => false,
    }
}

/// What an event leads to: where `stop` is then, and what it does.
pub open spec fn stop_next(id: u64, phase: StopPhaseView, event: StopEventView) -> (
    StopPhaseView,
    StopActionView,
) {
    match (phase, event) {
        (_, StopEventView::Viewed(Err(e))) => (StopPhaseView::Over, StopActionView::Fail(e)),
        (StopPhaseView::Rechecking(why), StopEventView::Viewed(Ok(details))) => match stop_of(
            details,
        ) {
            Err(e) => (StopPhaseView::Over, StopActionView::Fail(e)),
            Ok(StopDecision::Active) => (StopPhaseView::Over, StopActionView::Fail(why)),
            Ok(StopDecision::Completed) => (
                StopPhaseView::Over,
                StopActionView::SayAndRemove(
                    "Run "@ + decimal(id as nat)
                        + " completed while cancellation was requested; removed local state"@,
                ),
            ),
        },
        (_, StopEventView::Viewed(Ok(details))) => match stop_of(details) {
            Err(e) => (StopPhaseView::Over, StopActionView::Fail(e)),
            Ok(StopDecision::Active) => (StopPhaseView::Cancelling, StopActionView::Cancel),
            Ok(StopDecision::Completed) => (
                StopPhaseView::Over,
                StopActionView::RemoveAndSay(
                    "Run "@ + decimal(id as nat) + " already completed; removed local state"@,
                ),
            ),
        },
        (_, StopEventView::Cancelled(None)) => (
            StopPhaseView::Over,
            StopActionView::RemoveAndSay("Cancelled run "@ + decimal(id as nat)),
        ),
        (_, StopEventView::Cancelled(Some((_, e)))) => (
            StopPhaseView::Rechecking(e),
            StopActionView::View,
        ),
    }
}

fn run_says(id: u64, what: &str) -> (r: String)
    ensures
        r@ == "Run "@ + decimal(id as nat) + what@,
{
    let mut s = "Run ".to_owned();
    s.append(number(id).as_str());
    s.append(what);
    s
}

/// Whether EVENT can come in this phase of `stop`.
pub fn stop_takes(phase: &StopPhase, event: &StopEvent) -> (r: bool)
    ensures
        r == stop_can_come(phase@, event@),
{
    match (phase, event) {
        (StopPhase::Viewing, StopEvent::Viewed(_)) => true,
        (StopPhase::Cancelling, StopEvent::Cancelled(_)) => true,
        (StopPhase::Rechecking(_), StopEvent::Viewed(_)) => true,
        _ => false,
    }
}

/// What `stop` of run ID does on EVENT.
pub fn stop_step(id: u64, phase: StopPhase, event: StopEvent) -> (r: (StopPhase, StopAction))
    requires
        stop_can_come(phase@, event@),
    ensures
        (r.0@, r.1@) == stop_next(id, phase@, event@),
{
    match (phase, event) {
        (_, StopEvent::Viewed(Err(e))) => (StopPhase::Over, StopAction::Fail(e)),
        (StopPhase::Rechecking(why), StopEvent::Viewed(Ok(details))) => match stop_decision(
            &details,
        ) {
            Err(e) => (StopPhase::Over, StopAction::Fail(e)),
            Ok(StopDecision::Active) => (StopPhase::Over, StopAction::Fail(why)),
            Ok(StopDecision::Completed) => (
                StopPhase::Over,
                StopAction::SayAndRemove(
                    run_says(
                        id,
                        " completed while cancellation was requested; removed local state",
                    ),
                ),
            ),
        },
        (_, StopEvent::Viewed(Ok(details))) => match stop_decision(&details) {
            Err(e) => (StopPhase::Over, StopAction::Fail(e)),
            Ok(StopDecision::Active) => (StopPhase::Cancelling, StopAction::Cancel),
            Ok(StopDecision::Completed) => (
                StopPhase::Over,
                StopAction::RemoveAndSay(
                    run_says(id, " already completed; removed local state"),
                ),
            ),
        },
        (_, StopEvent::Cancelled(Ok(_))) => {
            let mut s = "Cancelled run ".to_owned();
            s.append(number(id).as_str());
            (StopPhase::Over, StopAction::RemoveAndSay(s))
        },
        (_, StopEvent::Cancelled(Err(e))) => {
            let why = e.detail().to_owned();
            (StopPhase::Rechecking(why), StopAction::View)
        },
    }
}

/// The local state of a run is removed after it was cancelled, or once it is
/// known to be managed here and completed; at no other time.
pub proof fn law_state_outlives_the_run(id: u64, phase: StopPhaseView, event: StopEventView)
    requires
        stop_can_come(phase, event),
    ensures
        ({
            let action = stop_next(id, phase, event).1;
            let removes = action is RemoveAndSay || action is SayAndRemove;
            removes <==> match event {
                StopEventView::Cancelled(failure) => failure is None,
                StopEventView::Viewed(Ok(details)) => stop_of(details) == Ok::<
                    StopDecision,
                    Seq<char>,
                >(StopDecision::Completed),
                StopEventView::Viewed(Err(_)) => false,
            }
        }),
{
}

/// Only a run that is managed here and goes on is cancelled, and it is
/// cancelled once.
pub proof fn law_only_active_runs_are_cancelled(
    id: u64,
    phase: StopPhaseView,
    event: StopEventView,
)
    requires
        stop_can_come(phase, event),
    ensures
        stop_next(id, phase, event).1 is Cancel ==> phase is Viewing && event is Viewed
            && event->Viewed_0 is Ok && stop_of(event->Viewed_0->Ok_0) == Ok::<
            StopDecision,
            Seq<char>,
        >(StopDecision::Active),
{
}

// ---- What the commands come to -----------------------------------------

/// The run that was dispatched at this moment for this session: it has the
/// session's title, and is from at most two seconds before.
pub open spec fn fits_dispatch(run: RunView, session: Seq<char>, at: Moment) -> bool {
    run.display_title == "Devspace "@ + session && (run.created_at.secs > at.secs - 2 || (
    run.created_at.secs == at.secs - 2 && run.created_at.nanos >= at.nanos))
}

/// `start` saw these lists of runs, none of them with the run, and was in
/// these states before, between and after them.
pub open spec fn looked_in_vain(states: Seq<StartView>, lists: Seq<Seq<RunView>>) -> bool {
    &&& states.len() == lists.len() + 1
    &&& forall|k: int|
        0 <= k < lists.len() ==> start_can_come(
            states[k].phase,
            StartEventView::Listed(Ok(#[trigger] lists[k])),
        ) && start_leads_to(
            states[k],
            StartEventView::Listed(Ok(lists[k])),
            states[k + 1],
            StartActionView::WaitAndList,
        )
}

proof fn lemma_looked_in_vain(states: Seq<StartView>, lists: Seq<Seq<RunView>>, k: int)
    requires
        looked_in_vain(states, lists),
        states[0].phase is Looking,
        0 <= k <= lists.len(),
    ensures
        states[k].phase is Looking,
        states[k].phase->Looking_0 == states[0].phase->Looking_0 + k,
        states[k].phase->Looking_1 == states[0].phase->Looking_1,
        states[k].session == states[0].session,
        states[k].path == states[0].path,
    decreases k,
{
    if k > 0 {
        lemma_looked_in_vain(states, lists, k - 1);
        assert(start_leads_to(
            states[k - 1],
            StartEventView::Listed(Ok(lists[k - 1])),
            states[k],
            StartActionView::WaitAndList,
        ));
    }
}

/// Of the runs that are listed after a dispatch, the one with the session's
/// title that is from two seconds before the dispatch at the earliest is
/// looked at, where there is just one and it has an id; no other run ever
/// is. So it goes however often the runs were listed before.
pub proof fn law_dispatched_runs_are_found(
    s: StartView,
    at: Moment,
    first: StartActionView,
    states: Seq<StartView>,
    lists: Seq<Seq<RunView>>,
    runs: Seq<RunView>,
    after: StartView,
    action: StartActionView,
    i: int,
    id: u64,
)
    requires
        start_can_come(s.phase, StartEventView::Dispatched(at, None)),
        start_leads_to(s, StartEventView::Dispatched(at, None), states[0], first),
        looked_in_vain(states, lists),
        start_can_come(states.last().phase, StartEventView::Listed(Ok(runs))),
        start_leads_to(states.last(), StartEventView::Listed(Ok(runs)), after, action),
    ensures
        first is List && states[0].retained,
        0 <= i < runs.len() && fits_dispatch(runs[i], s.session, at) && (forall|k: int|
            0 <= k < runs.len() && fits_dispatch(#[trigger] runs[k], s.session, at) ==> k == i)
            && runs[i].database_id == Some(id) ==> action == StartActionView::Look(id)
            && after.url == runs[i].url && after.phase == StartPhase::Found(id),
        action is Look ==> exists|k: int|
            0 <= k < runs.len() && fits_dispatch(#[trigger] runs[k], s.session, at)
                && runs[k].database_id == Some(action->Look_0) && runs[k].url == after.url,
        0 <= i < runs.len() && runs[i].created_at.secs < at.secs - 2 && (forall|k: int|
            0 <= k < runs.len() && k != i ==> (#[trigger] runs[k]).database_id != Some(id))
            ==> action != StartActionView::Look(id),
        (forall|k: int| 0 <= k < runs.len() ==> !fits_dispatch(#[trigger] runs[k], s.session, at))
            ==> (lists.len() < 29 ==> action is WaitAndList) && (lists.len() >= 29 ==> action
            == StartActionView::WaitAndFail(
            "workflow was dispatched but could not be correlated safely; retain "@ + s.path
                + " and use GitHub to locate session "@ + s.session,
        )),
        0 <= i < runs.len() && fits_dispatch(runs[i], s.session, at) && (exists|k: int|
            0 <= k < runs.len() && k != i && fits_dispatch(#[trigger] runs[k], s.session, at))
            ==> action is WaitAndList || action is WaitAndFail,
{
    lemma_looked_in_vain(states, lists, lists.len() as int);
    let before = states.last();
    let since = before.phase->Looking_1;
    assert forall|k: int| 0 <= k < runs.len() implies crate::devspace::is_run_of(
        #[trigger] runs[k],
        s.session,
        since,
    ) == fits_dispatch(runs[k], s.session, at) by {}
    if 0 <= i < runs.len() && fits_dispatch(runs[i], s.session, at) && (forall|k: int|
        0 <= k < runs.len() && fits_dispatch(#[trigger] runs[k], s.session, at) ==> k == i) {
        assert(is_only_run(runs, s.session, since, i));
    }
    if action is Look {
        let k = choose|k: int|
            #![trigger runs[k]]
            is_only_run(runs, s.session, since, k) && (after, action) == found_run(
                before,
                runs[k],
            );
        assert(fits_dispatch(runs[k], s.session, at));
    }
    if 0 <= i < runs.len() && fits_dispatch(runs[i], s.session, at) && (exists|k: int|
        0 <= k < runs.len() && k != i && fits_dispatch(#[trigger] runs[k], s.session, at)) {
        assert forall|m: int| !#[trigger] is_only_run(runs, s.session, since, m) by {
            let k = choose|k: int|
                0 <= k < runs.len() && k != i && fits_dispatch(#[trigger] runs[k], s.session, at);
            assert(crate::devspace::is_run_of(runs[k], s.session, since));
            assert(crate::devspace::is_run_of(runs[i], s.session, since));
        }
    }
    if forall|k: int| 0 <= k < runs.len() ==> !fits_dispatch(#[trigger] runs[k], s.session, at) {
        assert forall|m: int| !#[trigger] is_only_run(runs, s.session, since, m) by {
            if 0 <= m < runs.len() {
                assert(!crate::devspace::is_run_of(runs[m], s.session, since));
            }
        }
    }
}

/// A run that was found is adopted, unless there is local state for it, and
/// then its id and its URL are told.
pub proof fn law_found_runs_are_adopted(
    s: StartView,
    id: u64,
    occupied: bool,
    after: StartView,
    action: StartActionView,
)
    requires
        s.phase == StartPhase::Found(id),
        start_leads_to(s, StartEventView::Occupied(occupied), after, action),
    ensures
        !occupied ==> action == StartActionView::Adopt(
            id,
            "Run "@ + decimal(id as nat) + ": "@ + s.url,
        ),
        occupied ==> action == StartActionView::Fail(
            "workflow was dispatched but local state already exists for run "@ + decimal(id as nat)
                + ("; retain "@ + s.path + " and locate session "@ + s.session + " in GitHub"@),
        ),
{
}

/// `start` fails with what went wrong: before the dispatch with no more than
/// that, and once a run may be there with where its key is and how to find
/// it.
pub proof fn law_start_failures_are_told(
    s: StartView,
    event: StartEventView,
    after: StartView,
    action: StartActionView,
    e: Seq<char>,
    at: Moment,
)
    requires
        start_can_come(s.phase, event),
        start_leads_to(s, event, after, action),
    ensures
        ({
            let key = "; retain "@ + s.path + " and locate session "@ + s.session + " in GitHub"@;
            &&& event == StartEventView::Keyed(None) ==> action is Dispatch && after.phase
                == StartPhase::Dispatching && after.retained == s.retained
            &&& event == StartEventView::Keyed(Some((true, e))) || event == StartEventView::Keyed(
                Some((false, e)),
            ) ==> action == StartActionView::Fail("key generation failed: "@ + e)
            &&& event == StartEventView::Dispatched(at, Some((false, e))) ==> action
                == StartActionView::Fail("dispatch command could not start: "@ + e)
                && after.retained == s.retained
            &&& event == StartEventView::Dispatched(at, Some((true, e))) ==> action
                == StartActionView::Fail("dispatch result is uncertain ("@ + e + ")"@ + key)
                && after.retained
            &&& event == StartEventView::Listed(Err(e)) ==> action == StartActionView::Fail(
                "workflow was dispatched but correlation is uncertain ("@ + e + ")"@ + key,
            )
            &&& after.session == s.session && after.path == s.path
        }),
{
}

/// A new session gets sixteen tries at a place of its own: one that is taken
/// is tried again, and one that can't be made is given up at once.
pub proof fn law_places_are_tried_sixteen_times(tries: u32)
    ensures
        place_step(tries, Placed::Made) == PlaceStep::Use,
        place_step(tries, Placed::Failed) == PlaceStep::Fail,
        tries < 16 ==> place_step(tries, Placed::Taken) == PlaceStep::Retry,
        tries >= 16 ==> place_step(tries, Placed::Taken) == PlaceStep::GiveUp,
{
}

/// A status of a run that is not over.
pub open spec fn goes_on_with(status: Seq<char>) -> bool {
    status == "requested"@ || status == "waiting"@ || status == "pending"@ || status == "queued"@
        || status == "in_progress"@
}

/// `ssh` views the run as long as there is time, probes the runner while the
/// run is a development runner's and goes on, connects once the runner takes
/// connections, and fails with why it can't.
pub proof fn law_ssh_waits_and_connects(id: u64, details: DetailsView, e: Seq<char>)
    ensures
        ({
            let viewed = ssh_next(id, SshEventView::Viewed(Ok(details)));
            let ours = details.workflow_name == "Development runner"@;
            let conclusion = if details.conclusion is Some {
                details.conclusion->0
            } else {
                "unknown"@
            };
            &&& ssh_next(id, SshEventView::Time(true)) is View
            &&& ssh_next(id, SshEventView::Time(false)) == SshActionView::Fail(
                "ordinary SSH for workflow "@ + decimal(id as nat)
                    + " was not ready before timeout"@,
            )
            &&& ssh_next(id, SshEventView::Probed(Ok(true))) is Connect
            &&& ssh_next(id, SshEventView::Probed(Ok(false))) is Wait
            &&& ssh_next(id, SshEventView::Probed(Err(e))) == SshActionView::Fail(e)
            &&& ssh_next(id, SshEventView::Viewed(Err(e))) == SshActionView::Fail(e)
            &&& !ours ==> viewed == SshActionView::Fail(
                "run is not a Development runner workflow"@,
            )
            &&& ours && goes_on_with(details.status) ==> viewed is Probe
            &&& ours && details.status == "completed"@ ==> viewed == SshActionView::Fail(
                "workflow completed ("@ + conclusion + ")"@,
            )
            &&& ours && !goes_on_with(details.status) && details.status != "completed"@ ==> viewed
                is Fail
        }),
{
    lemma_statuses();
}

proof fn lemma_statuses()
    ensures
        "completed"@.len() == 9,
        "requested"@.len() == 9 && "requested"@[0] == 'r' && "completed"@[0] == 'c',
        "waiting"@.len() == 7,
        "pending"@.len() == 7,
        "queued"@.len() == 6,
        "in_progress"@.len() == 11,
{
    reveal_strlit("completed");
    reveal_strlit("requested");
    reveal_strlit("waiting");
    reveal_strlit("pending");
    reveal_strlit("queued");
    reveal_strlit("in_progress");
}

/// `stop` cancels a development runner's run that goes on, and removes what is
/// kept of one that is over, or that it has cancelled; each is told. A run
/// that can't be cancelled is viewed again: where it has ended meanwhile, it
/// is over, and else `stop` fails with why. Any other run is left alone.
pub proof fn law_stop_cancels_or_cleans_up(
    id: u64,
    details: DetailsView,
    e: Seq<char>,
    executed: bool,
)
    ensures
        ({
            let viewing = StopPhaseView::Viewing;
            let cancelling = StopPhaseView::Cancelling;
            let rechecking = StopPhaseView::Rechecking(e);
            let seen = StopEventView::Viewed(Ok(details));
            let run = "Run "@ + decimal(id as nat);
            let ours = details.workflow_name == "Development runner"@;
            &&& ours && goes_on_with(details.status) ==> stop_next(id, viewing, seen) == (
                cancelling,
                StopActionView::Cancel,
            )
            &&& ours && goes_on_with(details.status) ==> stop_next(id, rechecking, seen).1
                == StopActionView::Fail(e)
            &&& ours && details.status == "completed"@ ==> stop_next(id, viewing, seen).1
                == StopActionView::RemoveAndSay(run + " already completed; removed local state"@)
            &&& ours && details.status == "completed"@ ==> stop_next(id, rechecking, seen).1
                == StopActionView::SayAndRemove(
                run + " completed while cancellation was requested; removed local state"@,
            )
            &&& !ours || (!goes_on_with(details.status) && details.status != "completed"@)
                ==> stop_next(id, viewing, seen).1 is Fail && stop_next(id, rechecking, seen).1
                is Fail
            &&& stop_next(id, cancelling, StopEventView::Cancelled(None)).1
                == StopActionView::RemoveAndSay("Cancelled run "@ + decimal(id as nat))
            &&& stop_next(id, cancelling, StopEventView::Cancelled(Some((executed, e)))) == (
                rechecking,
                StopActionView::View,
            )
            &&& stop_next(id, viewing, StopEventView::Viewed(Err(e))).1 == StopActionView::Fail(e)
            &&& stop_next(id, rechecking, StopEventView::Viewed(Err(e))).1
                == StopActionView::Fail(e)
        }),
{
    lemma_statuses();
}

/// Each phase of `start` and of `stop` takes what it waits for, whatever
/// that says, and nothing else; once over, they take nothing.
pub proof fn law_phases_take_what_they_wait_for(
    start: StartPhase,
    started: StartEventView,
    stop: StopPhaseView,
    stopped: StopEventView,
)
    ensures
        start is Keying ==> (start_can_come(start, started) <==> started is Keyed),
        start is Dispatching ==> (start_can_come(start, started) <==> started is Dispatched
            && started->Dispatched_0.secs >= i64::MIN + 2),
        start is Looking ==> (start_can_come(start, started) <==> started is Listed
            && start->Looking_0 < 30),
        start is Found ==> (start_can_come(start, started) <==> started is Occupied),
        start is Over ==> !start_can_come(start, started),
        stop is Viewing || stop is Rechecking ==> (stop_can_come(stop, stopped) <==> stopped
            is Viewed),
        stop is Cancelling ==> (stop_can_come(stop, stopped) <==> stopped is Cancelled),
        stop is Over ==> !stop_can_come(stop, stopped),
{
}

} // verus!
