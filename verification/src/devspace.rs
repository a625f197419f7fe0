//! Disposable development runners: what the commands ask of `gh`, `ssh` and
//! `ssh-keygen`, and what they make of the answers.

use crate::json::{json_parse, str_of, Fields, Json, JsonView};
use crate::moment::{moment_lt, Moment};
use crate::path::{in_dir, is_absolute, is_absolute_text, join_path};
use crate::table::{placed, value_of, Sorted};
use crate::text::{
    all_digits, blank, chars_of, debug_text, decimal, decode, digits_value, is_blank, is_digit,
    is_digit_char, is_space_char, joined, number, parse_unsigned, quote, same, trim, trimmed,
    unsigned_value, utf8_text,
};
use crate::text::{
    law_blanks_are_trimmed_away, law_decimal_is_positional, law_decimal_reads_back,
    law_joining_goes_on, law_numbers_read_back, law_only_digits_are_numbers,
};
use crate::views::{opt_str, opt_view, views, views_empty, views_push};
use vstd::prelude::*;

verus! {

broadcast use {views_push, views_empty};

pub const REPO: &'static str = "bootc-dev/cgwalters-devspace-sandbox";

pub const WORKFLOW: &'static str = "devspace.yml";

pub const WORKFLOW_NAME: &'static str = "Development runner";

/// How long `ssh` waits for a runner, in seconds.
pub const WAIT_S: u64 = 180;

// ---- Arguments ---------------------------------------------------------

/// A runner's lifetime.
#[derive(Clone, Copy, Debug, PartialEq, Eq, Structural)]
pub enum DurationMinutes {
    Thirty,
    Sixty,
    OneTwenty,
    TwoForty,
}

/// A lifetime in minutes.
pub open spec fn minutes_text(d: DurationMinutes) -> Seq<char> {
    match d {
        DurationMinutes::Thirty => "30"@,
        DurationMinutes::Sixty => "60"@,
        DurationMinutes::OneTwenty => "120"@,
        DurationMinutes::TwoForty => "240"@,
    }
}

impl DurationMinutes {
    pub fn as_str(self) -> (r: &'static str)
        ensures
            r@ == minutes_text(self),
    {
        match self {
            Self::Thirty => "30",
            Self::Sixty => "60",
            Self::OneTwenty => "120",
            Self::TwoForty => "240",
        }
    }
}

/// The run that a text names: decimal digits only.
pub open spec fn run_id_of(value: Seq<char>) -> Result<u64, Seq<char>> {
    if !all_digits(value) {
        Err("run ID must be numeric"@)
    } else if digits_value(value) > u64::MAX {
        Err("run ID is too large"@)
    } else {
        Ok(digits_value(value) as u64)
    }
}

pub fn parse_run_id(value: &str) -> (r: Result<u64, String>)
    ensures
        match r {
            Ok(id) => run_id_of(value@) == Ok::<u64, Seq<char>>(id),
            Err(e) => run_id_of(value@) == Err::<u64, Seq<char>>(e@),
        },
{
    let v = chars_of(value);
    if v.len() == 0 {
        return Err("run ID must be numeric".to_owned());
    }
    for i in 0..v.len()
        invariant
            v@ == value@,
            forall|k: int| 0 <= k < i ==> is_digit_char(#[trigger] v@[k]),
    {
        if !is_digit(v[i]) {
            return Err("run ID must be numeric".to_owned());
        }
    }
    assert(is_digit_char(v@[0]));
    match parse_unsigned(value, u64::MAX) {
        Some(n) => Ok(n),
        None => Err("run ID is too large".to_owned()),
    }
}

/// The number of cores that a text names, one of the SIZES.
pub open spec fn cores_of(
    value: Seq<char>,
    sizes: Result<Seq<(Seq<char>, Seq<char>)>, Seq<char>>,
) -> Result<u32, Seq<char>> {
    match unsigned_value(value, u32::MAX as nat) {
        None => Err("cores must be numeric"@),
        Some(cores) => match sizes {
            Err(e) => Err("unable to validate cores: "@ + e),
            Ok(sizes) => if value_of(sizes, value) is Some {
                Ok(cores as u32)
            } else {
                Err(
                    "cores must be one of the choices in runner-sizes.json (got "@ + value + ")"@,
                )
            },
        },
    }
}

/// The sizes, or why there are none.
pub open spec fn sizes_view(sizes: Result<&Sorted<String>, &str>) -> Result<
    Seq<(Seq<char>, Seq<char>)>,
    Seq<char>,
> {
    match sizes {
        Ok(s) => Ok(s@),
        Err(e) => Err(e@),
    }
}

/// The number of cores that VALUE names. SIZES: the labels of the runners by
/// their number of cores, or why they can't be had.
pub fn parse_cores(value: &str, sizes: Result<&Sorted<String>, &str>) -> (r: Result<u32, String>)
    ensures
        match r {
            Ok(cores) => cores_of(value@, sizes_view(sizes)) == Ok::<u32, Seq<char>>(cores),
            Err(e) => cores_of(value@, sizes_view(sizes)) == Err::<u32, Seq<char>>(e@),
        },
{
    let cores = match parse_unsigned(value, u32::MAX as u64) {
        Some(n) => n as u32,
        None => {
            return Err("cores must be numeric".to_owned());
        },
    };
    match sizes {
        Err(e) => {
            let mut s = "unable to validate cores: ".to_owned();
            s.append(e);
            Err(s)
        },
        Ok(sizes) => if sizes.get(value).is_some() {
            Ok(cores)
        } else {
            let mut s =
                "cores must be one of the choices in runner-sizes.json (got ".to_owned();
            s.append(value);
            s.append(")");
            Err(s)
        },
    }
}

/// A choice of runner-sizes.json: a number of cores, and a label.
pub open spec fn is_size(entry: (Seq<char>, Seq<char>)) -> bool {
    unsigned_value(entry.0, u32::MAX as nat) is Some && !is_blank(entry.1)
}

/// runner-sizes.json has choices, and nothing else.
pub open spec fn are_sizes(sizes: Seq<(Seq<char>, Seq<char>)>) -> bool {
    sizes.len() > 0 && forall|i: int| 0 <= i < sizes.len() ==> is_size(#[trigger] sizes[i])
}

/// What is wrong with other sizes.
pub open spec fn bad_sizes_text() -> Seq<char> {
    "runner-sizes.json must contain numeric core choices with non-empty labels"@
}

/// Checks what runner-sizes.json holds.
pub fn runner_sizes(sizes: Sorted<String>) -> (r: Result<Sorted<String>, String>)
    ensures
        match r {
            Ok(s) => are_sizes(sizes@) && s@ == sizes@,
            Err(e) => !are_sizes(sizes@) && e@ == bad_sizes_text(),
        },
{
    let n = sizes.len();
    let mut good = n > 0;
    let mut i: usize = 0;
    while good && i < n
        invariant
            n == sizes@.len(),
            i <= n,
            n > 0 ==> good == forall|k: int| 0 <= k < i ==> is_size(#[trigger] sizes@[k]),
            n == 0 ==> !good,
            !good ==> !are_sizes(sizes@),
        decreases n - i,
    {
        let numeric = parse_unsigned(sizes.key(i), u32::MAX as u64).is_some();
        if !numeric || blank(sizes.value(i).as_str()) {
            good = false;
            assert(!is_size(sizes@[i as int]));
        }
        i += 1;
    }
    if good {
        Ok(sizes)
    } else {
        Err("runner-sizes.json must contain numeric core choices with non-empty labels".to_owned())
    }
}

/// The texts that an object holds, in the order of their keys; none where it
/// holds anything else.
pub open spec fn texts_of(fields: Seq<(Seq<char>, JsonView)>) -> Option<
    Seq<(Seq<char>, Seq<char>)>,
>
    decreases fields.len(),
{
    if fields.len() == 0 {
        Some(Seq::empty())
    } else {
        match (texts_of(fields.drop_last()), str_of(fields.last().1)) {
            (Some(texts), Some(text)) => Some(placed(texts, fields.last().0, text)),
            _ => None,
        }
    }
}

/// What is said of a runner-sizes.json that is no object of texts.
pub open spec fn no_sizes_text() -> Seq<char> {
    "parsing runner-sizes.json"@
}

/// The choices in what runner-sizes.json holds.
pub open spec fn sizes_of(text: Seq<char>) -> Result<Seq<(Seq<char>, Seq<char>)>, Seq<char>> {
    match json_parse(text) {
        Some(JsonView::Object(fields)) => match texts_of(fields) {
            Some(sizes) => if are_sizes(sizes) {
                Ok(sizes)
            } else {
                Err(bad_sizes_text())
            },
            None => Err(no_sizes_text()),
        },
        _ => Err(no_sizes_text()),
    }
}

proof fn lemma_texts_of(fields: Seq<(Seq<char>, JsonView)>, n: int)
    requires
        0 <= n <= fields.len(),
        texts_of(fields.take(n)) is None,
    ensures
        texts_of(fields) is None,
    decreases fields.len() - n,
{
    if n < fields.len() {
        assert(fields.take(n + 1).drop_last() =~= fields.take(n));
        lemma_texts_of(fields, n + 1);
    } else {
        assert(fields.take(n) =~= fields);
    }
}

/// The texts that an object holds, by their keys, where it holds nothing
/// else.
fn texts_in(fields: &Fields) -> (r: Option<Sorted<String>>)
    ensures
        match r {
            Some(texts) => texts_of(fields@) == Some(texts@),
            None => texts_of(fields@) is None,
        },
{
    let mut texts: Sorted<String> = Sorted::new();
    assert(fields@.take(0) =~= Seq::<(Seq<char>, JsonView)>::empty());
    let n = fields.len();
    for i in 0..n
        invariant
            n == fields@.len(),
            texts_of(fields@.take(i as int)) == Some(texts@),
    {
        assert(fields@.take(i + 1).drop_last() =~= fields@.take(i as int));
        match fields.value(i).as_str() {
            Some(text) => {
                texts = texts.with(fields.key(i), text.to_owned());
            },
            None => {
                proof {
                    lemma_texts_of(fields@, i + 1);
                }
                return None;
            },
        }
    }
    assert(fields@.take(n as int) =~= fields@);
    Some(texts)
}

/// Reads the choices in TEXT, what runner-sizes.json holds.
pub fn sizes_in(text: &str) -> (r: Result<Sorted<String>, String>)
    ensures
        match r {
            Ok(sizes) => sizes_of(text@) == Ok::<_, Seq<char>>(sizes@),
            Err(e) => sizes_of(text@) == Err::<Seq<(Seq<char>, Seq<char>)>, _>(e@),
        },
{
    if let Some(Json::Object(fields)) = Json::parse(text) {
        if let Some(sizes) = texts_in(&fields) {
            return runner_sizes(sizes);
        }
    }
    Err("parsing runner-sizes.json".to_owned())
}

/// What `start` says of a number of cores that no runner has.
pub open spec fn no_size_text(cores: u32) -> Seq<char> {
    "runner-sizes.json does not define "@ + decimal(cores as nat) + " cores"@
}

/// Checks that some runner has this number of cores.
pub fn require_size(sizes: &Sorted<String>, cores: u32) -> (r: Result<(), String>)
    ensures
        match r {
            Ok(_) => value_of(sizes@, decimal(cores as nat)) is Some,
            Err(e) => value_of(sizes@, decimal(cores as nat)) is None && e@ == no_size_text(cores),
        },
{
    let text = number(cores as u64);
    if sizes.get(text.as_str()).is_some() {
        return Ok(());
    }
    let mut s = "runner-sizes.json does not define ".to_owned();
    s.append(text.as_str());
    s.append(" cores");
    Err(s)
}

// ---- Local state -------------------------------------------------------

/// What is said where there is no place for the state.
pub open spec fn no_root_text() -> Seq<char> {
    "XDG_STATE_HOME is unusable and HOME is not a nonempty absolute path; cannot determine devspace state directory"@
}

/// The directory that the state of the runs is under.
#[derive(Clone, Copy, Debug, PartialEq, Eq, Structural)]
pub enum StateBase {
    /// XDG_STATE_HOME.
    Xdg,
    /// The home directory.
    Home,
}

/// Where the state of the runs is under its base.
pub open spec fn below_base(base: StateBase) -> Seq<char> {
    match base {
        StateBase::Xdg => "devspace"@,
        StateBase::Home => ".local/state/devspace"@,
    }
}

impl StateBase {
    /// Where the state of the runs is under this directory.
    pub fn below(self) -> (r: &'static str)
        ensures
            r@ == below_base(self),
    {
        match self {
            Self::Xdg => "devspace",
            Self::Home => ".local/state/devspace",
        }
    }
}

/// The directory that the state of the runs is under: XDG_STATE_HOME where
/// that is an absolute path, else the home directory, where that is one.
pub open spec fn base_of(xdg: Option<Seq<char>>, home: Option<Seq<char>>) -> Option<StateBase> {
    if xdg is Some && is_absolute_text(xdg->0) {
        Some(StateBase::Xdg)
    } else if home is Some && is_absolute_text(home->0) {
        Some(StateBase::Home)
    } else {
        None
    }
}

/// Where the state of the runs is.
pub open spec fn root_of(xdg: Option<Seq<char>>, home: Option<Seq<char>>) -> Result<
    Seq<char>,
    Seq<char>,
> {
    match base_of(xdg, home) {
        Some(StateBase::Xdg) => Ok(in_dir(xdg->0, below_base(StateBase::Xdg))),
        Some(StateBase::Home) => Ok(in_dir(home->0, below_base(StateBase::Home))),
        None => Err(no_root_text()),
    }
}

/// The directory that the state of the runs is under, from the values of
/// XDG_STATE_HOME and HOME.
pub fn state_base(xdg: Option<&str>, home: Option<&str>) -> (r: Result<StateBase, String>)
    ensures
        match r {
            Ok(b) => base_of(opt_str(xdg), opt_str(home)) == Some(b),
            Err(e) => base_of(opt_str(xdg), opt_str(home)) is None && e@ == no_root_text(),
        },
{
    if let Some(path) = xdg {
        if is_absolute(path) {
            return Ok(StateBase::Xdg);
        }
    }
    if let Some(path) = home {
        if is_absolute(path) {
            return Ok(StateBase::Home);
        }
    }
    Err(
        "XDG_STATE_HOME is unusable and HOME is not a nonempty absolute path; cannot determine devspace state directory".to_owned(),
    )
}

/// Where the state of the runs is, from the values of XDG_STATE_HOME and
/// HOME.
pub fn state_root_from(xdg: Option<&str>, home: Option<&str>) -> (r: Result<String, String>)
    ensures
        match r {
            Ok(p) => root_of(opt_str(xdg), opt_str(home)) == Ok::<Seq<char>, Seq<char>>(p@),
            Err(e) => root_of(opt_str(xdg), opt_str(home)) == Err::<Seq<char>, Seq<char>>(e@),
        },
{
    match state_base(xdg, home) {
        Ok(base) => {
            let path = match base {
                StateBase::Xdg => xdg.unwrap(),
                StateBase::Home => home.unwrap(),
            };
            Ok(join_path(path, base.below()))
        },
        Err(e) => Err(e),
    }
}

/// Where the state of run ID is, under ROOT.
pub fn state_path(root: &str, id: u64) -> (r: String)
    ensures
        r@ == in_dir(root@, decimal(id as nat)),
{
    join_path(root, number(id).as_str())
}

/// The state never ends up in a relative directory.
pub proof fn law_state_root_is_absolute(xdg: Option<Seq<char>>, home: Option<Seq<char>>)
    ensures
        root_of(xdg, home) is Ok ==> is_absolute_text(root_of(xdg, home)->Ok_0),
{
}

// ---- Sessions ----------------------------------------------------------

/// The hexadecimal digit of a number.
pub open spec fn hex_char(n: int) -> char {
    if n < 10 {
        (n + 48) as char
    } else {
        (n + 87) as char
    }
}

/// Bytes in hexadecimal, two digits each.
pub open spec fn hex_text(bytes: Seq<u8>) -> Seq<char>
    decreases bytes.len(),
{
    if bytes.len() == 0 {
        Seq::empty()
    } else {
        hex_text(bytes.drop_last()).push(hex_char(bytes.last() as int / 16)).push(
            hex_char(bytes.last() as int % 16),
        )
    }
}

/// The name of a session of these random bytes.
pub open spec fn session_text(bytes: Seq<u8>) -> Seq<char> {
    "session-"@ + hex_text(bytes)
}

fn hex_digit(n: u8) -> (c: char)
    requires
        n < 16,
    ensures
        c == hex_char(n as int),
{
    if n < 10 {
        (n + 48) as char
    } else {
        (n + 87) as char
    }
}

/// The name of a session of these random bytes.
pub fn session_name(bytes: &Vec<u8>) -> (r: String)
    ensures
        r@ == session_text(bytes@),
{
    let mut r = "session-".to_owned();
    assert(bytes@.take(0) =~= Seq::<u8>::empty());
    assert("session-"@ + Seq::<char>::empty() =~= "session-"@);
    for i in 0..bytes.len()
        invariant
            r@ == "session-"@ + hex_text(bytes@.take(i as int)),
    {
        assert(bytes@.take(i + 1).drop_last() =~= bytes@.take(i as int));
        let b: u8 = bytes[i];
        let ghost before = hex_text(bytes@.take(i as int));
        r.push(hex_digit(b / 16));
        r.push(hex_digit(b % 16));
        assert(r@ =~= "session-"@ + before.push(hex_char(b as int / 16)).push(
            hex_char(b as int % 16),
        ));
    }
    assert(bytes@.take(bytes@.len() as int) =~= bytes@);
    r
}

/// `getrandom::fill`: N random bytes, or its error in words. Which bytes
/// they are is left to chance.
#[verifier::external_body]
fn random_bytes(n: usize) -> (r: Result<Vec<u8>, String>)
    ensures
        r is Ok ==> r->Ok_0@.len() == n,
{
    let mut bytes = vec![0u8; n];
    match getrandom::fill(&mut bytes) {
        Ok(()) => Ok(bytes),
        Err(error) => Err(format!("{error:?}")),
    }
}

/// TEXT is the name of a session: of sixteen bytes.
pub open spec fn is_session(text: Seq<char>) -> bool {
    exists|bytes: Seq<u8>| bytes.len() == 16 && text == #[trigger] session_text(bytes)
}

/// What is said where there are no random bytes.
pub open spec fn no_random_text(e: Seq<char>) -> Seq<char> {
    "generating random session identifier: "@ + e
}

/// A new session's name: its bytes are random.
pub fn random_session() -> (r: Result<String, String>)
    ensures
        match r {
            Ok(s) => is_session(s@),
            Err(e) => exists|why: Seq<char>| e@ == #[trigger] no_random_text(why),
        },
{
    match random_bytes(16) {
        Ok(bytes) => {
            let s = session_name(&bytes);
            assert(s@ == session_text(bytes@));
            Ok(s)
        },
        Err(e) => {
            let mut s = "generating random session identifier: ".to_owned();
            s.append(e.as_str());
            assert(s@ == no_random_text(e@));
            Err(s)
        },
    }
}

/// The directory of a session that has no run yet.
pub fn pending_name(session: &str) -> (r: String)
    ensures
        r@ == ".pending-"@ + session@,
{
    let mut s = ".pending-".to_owned();
    s.append(session);
    s
}

/// What the `session` file of a session holds.
pub fn session_file(session: &str) -> (r: String)
    ensures
        r@ == session@ + "\n"@,
{
    let mut s = session.to_owned();
    s.append("\n");
    s
}

proof fn lemma_hex_length(bytes: Seq<u8>)
    ensures
        hex_text(bytes).len() == 2 * bytes.len(),
    decreases bytes.len(),
{
    if bytes.len() > 0 {
        lemma_hex_length(bytes.drop_last());
    }
}

/// Different bytes name different sessions.
pub proof fn law_sessions_tell_their_bytes(a: Seq<u8>, b: Seq<u8>)
    requires
        session_text(a) == session_text(b),
    ensures
        a == b,
{
    let n = "session-"@.len();
    assert(hex_text(a) =~= session_text(a).skip(n as int));
    assert(hex_text(b) =~= session_text(b).skip(n as int));
    lemma_hex_is_one_to_one(a, b);
}

proof fn lemma_hex_is_one_to_one(a: Seq<u8>, b: Seq<u8>)
    requires
        hex_text(a) == hex_text(b),
    ensures
        a == b,
    decreases a.len(),
{
    lemma_hex_length(a);
    lemma_hex_length(b);
    if a.len() == 0 {
        assert(a =~= b);
    } else {
        let x = hex_text(a.drop_last());
        let y = hex_text(b.drop_last());
        let n = hex_text(a).len();
        lemma_hex_length(a.drop_last());
        lemma_hex_length(b.drop_last());
        assert(x =~= hex_text(a).take(n - 2));
        assert(y =~= hex_text(b).take(n - 2));
        assert(hex_text(a)[n - 2] == hex_char(a.last() as int / 16));
        assert(hex_text(b)[n - 2] == hex_char(b.last() as int / 16));
        assert(hex_text(a)[n - 1] == hex_char(a.last() as int % 16));
        assert(hex_text(b)[n - 1] == hex_char(b.last() as int % 16));
        lemma_hex_is_one_to_one(a.drop_last(), b.drop_last());
        assert(a =~= a.drop_last().push(a.last()));
        assert(b =~= b.drop_last().push(b.last()));
    }
}

// ---- Other programs ----------------------------------------------------

/// Why a program didn't do its work.
#[derive(Debug)]
pub enum ExternalFailure {
    /// It was never started.
    Spawn(String),
    /// It was: it may have done its work all the same.
    Executed(String),
}

/// What a failure says.
pub open spec fn failure_text(f: ExternalFailure) -> Seq<char> {
    match f {
        ExternalFailure::Spawn(detail) => detail@,
        ExternalFailure::Executed(detail) => detail@,
    }
}

/// What a program that failed has to say: the first of its standard error
/// and its standard output that says anything.
pub open spec fn diagnostic_of(stdout: Seq<u8>, stderr: Seq<u8>) -> Seq<char> {
    let err = trimmed(utf8_text(stderr));
    let out = trimmed(utf8_text(stdout));
    if err.len() > 0 {
        err
    } else if out.len() > 0 {
        out
    } else {
        "command failed without diagnostics"@
    }
}

/// What a program that failed has to say.
pub fn diagnostic(stdout: &Vec<u8>, stderr: &Vec<u8>) -> (r: String)
    ensures
        r@ == diagnostic_of(stdout@, stderr@),
{
    let err = trim(decode(stderr).as_str());
    if !err.as_str().is_empty() {
        return err;
    }
    let out = trim(decode(stdout).as_str());
    if !out.as_str().is_empty() {
        return out;
    }
    "command failed without diagnostics".to_owned()
}

impl ExternalFailure {
    /// PROGRAM could not be started: E says why.
    pub fn not_started(program: &str, e: &str) -> (r: ExternalFailure)
        ensures
            r is Spawn,
            failure_text(r) == "required command "@ + program@ + " could not start: "@ + e@,
    {
        let mut s = "required command ".to_owned();
        s.append(program);
        s.append(" could not start: ");
        s.append(e);
        ExternalFailure::Spawn(s)
    }

    /// PROGRAM was started, but not waited for: E says why.
    pub fn not_collected(program: &str, e: &str) -> (r: ExternalFailure)
        ensures
            r is Executed,
            failure_text(r) == program@ + " started but could not be collected: "@ + e@,
    {
        let mut s = program.to_owned();
        s.append(" started but could not be collected: ");
        s.append(e);
        ExternalFailure::Executed(s)
    }

    /// PROGRAM failed, with this output.
    pub fn failed(program: &str, stdout: &Vec<u8>, stderr: &Vec<u8>) -> (r: ExternalFailure)
        ensures
            r is Executed,
            failure_text(r) == program@ + " failed: "@ + diagnostic_of(stdout@, stderr@),
    {
        let mut s = program.to_owned();
        s.append(" failed: ");
        s.append(diagnostic(stdout, stderr).as_str());
        ExternalFailure::Executed(s)
    }

    /// What the failure says.
    pub fn detail(&self) -> (r: &str)
        ensures
            r@ == failure_text(*self),
    {
        match self {
            ExternalFailure::Spawn(detail) => detail.as_str(),
            ExternalFailure::Executed(detail) => detail.as_str(),
        }
    }
}

/// Whether a dispatch that failed may have dispatched a run all the same,
/// so that its key must be kept.
pub fn dispatch_result_requires_retention(error: &ExternalFailure) -> (r: bool)
    ensures
        r == (*error is Executed),
{
    match error {
        ExternalFailure::Executed(_) => true,
        ExternalFailure::Spawn(_) => false,
    }
}

// ---- Runs --------------------------------------------------------------

/// A run of the workflow, as `gh run list` has it.
#[derive(Debug)]
pub struct Run {
    pub database_id: Option<u64>,
    pub created_at: Moment,
    pub display_title: String,
    pub status: String,
    pub url: String,
}

/// What a run holds.
#[verifier::ext_equal]
pub struct RunView {
    pub database_id: Option<u64>,
    pub created_at: Moment,
    pub display_title: Seq<char>,
    pub status: Seq<char>,
    pub url: Seq<char>,
}

impl View for Run {
    type V = RunView;

    open spec fn view(&self) -> RunView {
        RunView {
            database_id: self.database_id,
            created_at: self.created_at,
            display_title: self.display_title@,
            status: self.status@,
            url: self.url@,
        }
    }
}

/// The runs of a list.
pub open spec fn run_views(v: Seq<Run>) -> Seq<RunView> {
    Seq::new(v.len(), |i: int| v[i]@)
}

/// A run, as `gh run view` has it.
#[derive(Debug)]
pub struct Details {
    pub workflow_name: String,
    pub status: String,
    pub conclusion: Option<String>,
}

/// What the details of a run hold.
#[verifier::ext_equal]
pub struct DetailsView {
    pub workflow_name: Seq<char>,
    pub status: Seq<char>,
    pub conclusion: Option<Seq<char>>,
}

impl View for Details {
    type V = DetailsView;

    open spec fn view(&self) -> DetailsView {
        DetailsView {
            workflow_name: self.workflow_name@,
            status: self.status@,
            conclusion: opt_view(self.conclusion),
        }
    }
}

#[derive(Clone, Copy, Debug, PartialEq, Eq, Structural)]
pub enum WorkflowState {
    Active,
    Completed,
}

/// What is said of a status that no run has.
pub open spec fn bad_status_text(status: Seq<char>) -> Seq<char> {
    "unexpected workflow status "@ + debug_text(status)
}

/// A status of a run that goes on, or will.
pub open spec fn is_active(status: Seq<char>) -> bool {
    status == "requested"@ || status == "waiting"@ || status == "pending"@ || status == "queued"@
        || status == "in_progress"@
}

/// The state of a run with this status.
pub open spec fn state_of(status: Seq<char>) -> Result<WorkflowState, Seq<char>> {
    if is_active(status) {
        Ok(WorkflowState::Active)
    } else if status == "completed"@ {
        Ok(WorkflowState::Completed)
    } else {
        Err(bad_status_text(status))
    }
}

pub fn classify_status(status: &str) -> (r: Result<WorkflowState, String>)
    ensures
        match r {
            Ok(s) => state_of(status@) == Ok::<WorkflowState, Seq<char>>(s),
            Err(e) => state_of(status@) == Err::<WorkflowState, Seq<char>>(e@),
        },
{
    if same(status, "requested") || same(status, "waiting") || same(status, "pending") || same(
        status,
        "queued",
    ) || same(status, "in_progress") {
        return Ok(WorkflowState::Active);
    }
    if same(status, "completed") {
        return Ok(WorkflowState::Completed);
    }
    let mut s = "unexpected workflow status ".to_owned();
    s.append(quote(status).as_str());
    Err(s)
}

/// What is wrong with the first of RUNS whose status no run has.
pub open spec fn first_bad_status(runs: Seq<RunView>) -> Option<Seq<char>>
    decreases runs.len(),
{
    if runs.len() == 0 {
        None
    } else {
        match state_of(runs[0].status) {
            Err(e) => Some(e),
            Ok(_) => first_bad_status(runs.skip(1)),
        }
    }
}

/// The active ones of RUNS.
pub open spec fn active_of(runs: Seq<RunView>) -> Seq<RunView>
    decreases runs.len(),
{
    if runs.len() == 0 {
        Seq::empty()
    } else if is_active(runs.last().status) {
        active_of(runs.drop_last()).push(runs.last())
    } else {
        active_of(runs.drop_last())
    }
}

/// Just the active ones of RUNS are listed.
pub proof fn law_active_runs_are_listed(runs: Seq<RunView>, run: RunView)
    ensures
        active_of(runs).contains(run) <==> runs.contains(run) && is_active(run.status),
    decreases runs.len(),
{
    if runs.len() > 0 {
        let before = runs.drop_last();
        let last = runs.last();
        law_active_runs_are_listed(before, run);
        assert(runs =~= before.push(last));
        vstd::seq_lib::lemma_seq_contains_after_push(before, last, run);
        vstd::seq_lib::lemma_seq_contains_after_push(active_of(before), last, run);
    }
}

/// The runs of a list of references.
pub open spec fn run_ref_views(v: Seq<&Run>) -> Seq<RunView> {
    Seq::new(v.len(), |i: int| v[i]@)
}

/// Checks the statuses of RUNS.
pub fn check_statuses(runs: &Vec<Run>) -> (r: Result<(), String>)
    ensures
        match r {
            Ok(_) => first_bad_status(run_views(runs@)) is None,
            Err(e) => first_bad_status(run_views(runs@)) == Some(e@),
        },
{
    let ghost all = run_views(runs@);
    let mut i: usize = 0;
    assert(all.skip(0) =~= all);
    while i < runs.len()
        invariant
            i <= runs@.len(),
            all == run_views(runs@),
            first_bad_status(all) == first_bad_status(all.skip(i as int)),
        decreases runs@.len() - i,
    {
        assert(all.skip(i as int)[0] == runs@[i as int]@);
        if let Err(e) = classify_status(runs[i].status.as_str()) {
            return Err(e);
        }
        assert(all.skip(i as int).skip(1) =~= all.skip(i + 1));
        i += 1;
    }
    Ok(())
}

/// The active ones of RUNS; an error if a status is unknown.
pub fn active_runs(runs: &Vec<Run>) -> (r: Result<Vec<&Run>, String>)
    ensures
        match r {
            Ok(active) => first_bad_status(run_views(runs@)) is None && run_ref_views(active@)
                == active_of(run_views(runs@)),
            Err(e) => first_bad_status(run_views(runs@)) == Some(e@),
        },
{
    let ghost all = run_views(runs@);
    let mut active: Vec<&Run> = Vec::new();
    assert(all.skip(0) =~= all);
    assert(all.take(0) =~= Seq::<RunView>::empty());
    assert(run_ref_views(active@) =~= Seq::<RunView>::empty());
    for i in 0..runs.len()
        invariant
            all == run_views(runs@),
            first_bad_status(all) == first_bad_status(all.skip(i as int)),
            run_ref_views(active@) == active_of(all.take(i as int)),
    {
        proof {
            assert(all.skip(i as int)[0] == runs@[i as int]@);
            assert(all.skip(i as int).skip(1) =~= all.skip(i + 1));
            assert(all.take(i + 1).drop_last() =~= all.take(i as int));
            assert(all.take(i + 1).last() == runs@[i as int]@);
        }
        match classify_status(runs[i].status.as_str()) {
            Err(e) => {
                return Err(e);
            },
            Ok(WorkflowState::Active) => {
                let ghost before = run_ref_views(active@);
                active.push(&runs[i]);
                assert(run_ref_views(active@) =~= before.push(runs@[i as int]@));
            },
            Ok(WorkflowState::Completed) => {},
        }
    }
    assert(all.take(runs@.len() as int) =~= all);
    Ok(active)
}

/// The run of a session that was dispatched SINCE.
pub open spec fn is_run_of(run: RunView, session: Seq<char>, since: Moment) -> bool {
    run.display_title == "Devspace "@ + session && !moment_lt(run.created_at, since)
}

/// Run I is the one run among RUNS of this session, dispatched SINCE.
pub open spec fn is_only_run(
    runs: Seq<RunView>,
    session: Seq<char>,
    since: Moment,
    i: int,
) -> bool {
    &&& 0 <= i < runs.len()
    &&& is_run_of(runs[i], session, since)
    &&& forall|k: int|
        0 <= k < runs.len() && is_run_of(#[trigger] runs[k], session, since) ==> k == i
}

/// The run of the session, if exactly one is there.
pub fn find_run<'a>(session: &str, since: Moment, runs: &'a Vec<Run>) -> (r: Option<&'a Run>)
    ensures
        match r {
            Some(run) => exists|i: int| #[trigger]
                is_only_run(run_views(runs@), session@, since, i) && run@ == runs@[i]@,
            None => forall|i: int| !#[trigger] is_only_run(run_views(runs@), session@, since, i),
        },
{
    let ghost all = run_views(runs@);
    let mut title = "Devspace ".to_owned();
    title.append(session);
    let mut found: Option<usize> = None;
    for i in 0..runs.len()
        invariant
            all == run_views(runs@),
            title@ == "Devspace "@ + session@,
            match found {
                Some(f) => f < i && is_run_of(all[f as int], session@, since) && forall|k: int|
                    0 <= k < i && is_run_of(#[trigger] all[k], session@, since) ==> k == f,
                None => forall|k: int|
                    0 <= k < i ==> !is_run_of(#[trigger] all[k], session@, since),
            },
    {
        let run = &runs[i];
        assert(all[i as int] == run@);
        if same(run.display_title.as_str(), title.as_str()) && run.created_at.is_since(since) {
            if let Some(f) = found {
                assert forall|k: int| !#[trigger] is_only_run(all, session@, since, k) by {
                    assert(is_run_of(all[f as int], session@, since));
                    assert(is_run_of(all[i as int], session@, since));
                }
                return None;
            }
            found = Some(i);
        }
    }
    match found {
        Some(f) => {
            assert(is_only_run(all, session@, since, f as int));
            Some(&runs[f])
        },
        None => None,
    }
}

/// A session has one run or none: two that fit tell nothing.
pub proof fn law_correlation_is_unambiguous(
    runs: Seq<RunView>,
    session: Seq<char>,
    since: Moment,
    i: int,
    j: int,
)
    requires
        is_only_run(runs, session, since, i),
        is_only_run(runs, session, since, j),
    ensures
        i == j,
{
}

/// The name of run ID on the network.
pub open spec fn host_of(id: u64) -> Seq<char> {
    "cgwalters-devspace-"@ + decimal(id as nat)
}

pub fn hostname(id: u64) -> (r: String)
    ensures
        r@ == host_of(id),
{
    let mut s = "cgwalters-devspace-".to_owned();
    s.append(number(id).as_str());
    s
}

pub fn is_managed(details: &Details) -> (r: bool)
    ensures
        r == (details@.workflow_name == WORKFLOW_NAME@),
{
    same(details.workflow_name.as_str(), WORKFLOW_NAME)
}

/// TEXT, or a dash for none.
pub open spec fn or_dash(text: Seq<char>) -> Seq<char> {
    if text.len() == 0 {
        "-"@
    } else {
        text
    }
}

/// A run as `list` shows it.
pub open spec fn run_line(run: RunView) -> Seq<char> {
    let id = match run.database_id {
        Some(id) => decimal(id as nat),
        None => "-"@,
    };
    id + "\t"@ + or_dash(run.status) + "\t"@ + or_dash(run.display_title) + "\t"@ + or_dash(run.url)
}

fn dash(text: &String) -> (r: String)
    ensures
        r@ == or_dash(text@),
{
    if text.as_str().is_empty() {
        "-".to_owned()
    } else {
        text.clone()
    }
}

pub fn format_run(run: &Run) -> (r: String)
    ensures
        r@ == run_line(run@),
{
    let mut s = match run.database_id {
        Some(id) => number(id),
        None => "-".to_owned(),
    };
    s.append("\t");
    s.append(dash(&run.status).as_str());
    s.append("\t");
    s.append(dash(&run.display_title).as_str());
    s.append("\t");
    s.append(dash(&run.url).as_str());
    s
}

// ---- Command lines -----------------------------------------------------

fn owned(text: &str, argv: &mut Vec<String>)
    ensures
        views(final(argv)@) == views(old(argv)@).push(text@),
{
    argv.push(text.to_owned());
}

fn setting(name: &str, value: &str, argv: &mut Vec<String>)
    ensures
        views(final(argv)@) == views(old(argv)@).push(name@ + "="@ + value@),
{
    let mut s = name.to_owned();
    s.append("=");
    s.append(value);
    argv.push(s);
}

/// The arguments of `gh` that dispatch a run.
pub open spec fn dispatch_argv(
    duration: DurationMinutes,
    cores: u32,
    public_key: Seq<char>,
    session: Seq<char>,
) -> Seq<Seq<char>> {
    seq![
        "workflow"@,
        "run"@,
        WORKFLOW@,
        "--repo"@,
        REPO@,
        "--ref"@,
        "main"@,
        "-f"@,
        "duration"@ + "="@ + minutes_text(duration),
        "-f"@,
        "cores"@ + "="@ + decimal(cores as nat),
        "-f"@,
        "ssh_public_key"@ + "="@ + public_key,
        "-f"@,
        "session_name"@ + "="@ + session,
    ]
}

pub fn dispatch_args(
    duration: DurationMinutes,
    cores: u32,
    public_key: &str,
    session: &str,
) -> (r: Vec<String>)
    ensures
        views(r@) == dispatch_argv(duration, cores, public_key@, session@),
{
    let mut r: Vec<String> = Vec::new();
    owned("workflow", &mut r);
    owned("run", &mut r);
    owned(WORKFLOW, &mut r);
    owned("--repo", &mut r);
    owned(REPO, &mut r);
    owned("--ref", &mut r);
    owned("main", &mut r);
    owned("-f", &mut r);
    setting("duration", duration.as_str(), &mut r);
    owned("-f", &mut r);
    setting("cores", number(cores as u64).as_str(), &mut r);
    owned("-f", &mut r);
    setting("ssh_public_key", public_key, &mut r);
    owned("-f", &mut r);
    setting("session_name", session, &mut r);
    assert(views(r@) =~= dispatch_argv(duration, cores, public_key@, session@));
    r
}

/// The arguments of `gh` that list the dispatched runs.
pub open spec fn list_argv() -> Seq<Seq<char>> {
    seq![
        "run"@,
        "list"@,
        "--repo"@,
        REPO@,
        "--workflow"@,
        WORKFLOW@,
        "--branch"@,
        "main"@,
        "--event"@,
        "workflow_dispatch"@,
        "--limit"@,
        "100"@,
        "--json"@,
        "databaseId,createdAt,displayTitle,status,url"@,
    ]
}

/// The arguments of `gh` that list the dispatched runs.
pub fn list_args() -> (r: Vec<String>)
    ensures
        views(r@) == list_argv(),
{
    let mut r: Vec<String> = Vec::new();
    owned("run", &mut r);
    owned("list", &mut r);
    owned("--repo", &mut r);
    owned(REPO, &mut r);
    owned("--workflow", &mut r);
    owned(WORKFLOW, &mut r);
    owned("--branch", &mut r);
    owned("main", &mut r);
    owned("--event", &mut r);
    owned("workflow_dispatch", &mut r);
    owned("--limit", &mut r);
    owned("100", &mut r);
    owned("--json", &mut r);
    owned("databaseId,createdAt,displayTitle,status,url", &mut r);
    assert(views(r@) =~= list_argv());
    r
}

/// The arguments of `gh` that view run ID.
pub open spec fn view_argv(id: u64) -> Seq<Seq<char>> {
    seq![
        "run"@,
        "view"@,
        decimal(id as nat),
        "--repo"@,
        REPO@,
        "--json"@,
        "workflowName,status,conclusion"@,
    ]
}

/// The arguments of `gh` that view run ID.
pub fn view_args(id: u64) -> (r: Vec<String>)
    ensures
        views(r@) == view_argv(id),
{
    let mut r: Vec<String> = Vec::new();
    owned("run", &mut r);
    owned("view", &mut r);
    owned(number(id).as_str(), &mut r);
    owned("--repo", &mut r);
    owned(REPO, &mut r);
    owned("--json", &mut r);
    owned("workflowName,status,conclusion", &mut r);
    assert(views(r@) =~= view_argv(id));
    r
}

/// The arguments of `gh` that cancel run ID.
pub open spec fn cancel_argv(id: u64) -> Seq<Seq<char>> {
    seq!["run"@, "cancel"@, decimal(id as nat), "--repo"@, REPO@]
}

/// The arguments of `gh` that cancel run ID.
pub fn cancel_args(id: u64) -> (r: Vec<String>)
    ensures
        views(r@) == cancel_argv(id),
{
    let mut r: Vec<String> = Vec::new();
    owned("run", &mut r);
    owned("cancel", &mut r);
    owned(number(id).as_str(), &mut r);
    owned("--repo", &mut r);
    owned(REPO, &mut r);
    assert(views(r@) =~= cancel_argv(id));
    r
}

/// The arguments of `ssh-keygen` that make a key without a passphrase.
pub open spec fn keygen_argv(key: Seq<char>) -> Seq<Seq<char>> {
    seq!["-q"@, "-t"@, "ed25519"@, "-N"@, ""@, "-f"@, key]
}

/// The arguments of `ssh-keygen` that make the key of a session.
pub fn keygen_args(key: &str) -> (r: Vec<String>)
    ensures
        views(r@) == keygen_argv(key@),
{
    let mut r: Vec<String> = Vec::new();
    owned("-q", &mut r);
    owned("-t", &mut r);
    owned("ed25519", &mut r);
    owned("-N", &mut r);
    owned("", &mut r);
    owned("-f", &mut r);
    owned(key, &mut r);
    assert(views(r@) =~= keygen_argv(key@));
    r
}

/// The options of `ssh` to a runner, and who to connect as.
pub open spec fn ssh_options(key: Seq<char>, known_hosts: Seq<char>, host: Seq<char>) -> Seq<
    Seq<char>,
> {
    seq![
        "-i"@,
        key,
        "-o"@,
        "UserKnownHostsFile"@ + "="@ + known_hosts,
        "-o"@,
        "StrictHostKeyChecking=accept-new"@,
        "-o"@,
        "IdentitiesOnly=yes"@,
        "runner@"@ + host,
    ]
}

fn add_ssh_options(key: &str, known_hosts: &str, host: &str, argv: &mut Vec<String>)
    ensures
        views(final(argv)@) == views(old(argv)@) + ssh_options(key@, known_hosts@, host@),
{
    let ghost before = views(argv@);
    owned("-i", argv);
    owned(key, argv);
    owned("-o", argv);
    setting("UserKnownHostsFile", known_hosts, argv);
    owned("-o", argv);
    owned("StrictHostKeyChecking=accept-new", argv);
    owned("-o", argv);
    owned("IdentitiesOnly=yes", argv);
    let mut user = "runner@".to_owned();
    user.append(host);
    argv.push(user);
    assert(views(argv@) =~= before + ssh_options(key@, known_hosts@, host@));
}

/// The command that connects to a runner.
pub fn ssh_command(key: &str, known_hosts: &str, host: &str) -> (r: Vec<String>)
    ensures
        views(r@) == seq!["ssh"@] + ssh_options(key@, known_hosts@, host@),
{
    let mut r: Vec<String> = Vec::new();
    owned("ssh", &mut r);
    assert(views(r@) =~= seq!["ssh"@]);
    add_ssh_options(key, known_hosts, host, &mut r);
    r
}

/// The command that finds out whether a runner takes connections: it asks
/// nothing, waits eight seconds and does nothing.
pub fn ssh_probe_command(key: &str, known_hosts: &str, host: &str) -> (r: Vec<String>)
    ensures
        views(r@) == (seq!["ssh"@, "-o"@, "BatchMode=yes"@, "-o"@, "ConnectTimeout=8"@]
            + ssh_options(key@, known_hosts@, host@)).push("true"@),
{
    let mut r: Vec<String> = Vec::new();
    owned("ssh", &mut r);
    owned("-o", &mut r);
    owned("BatchMode=yes", &mut r);
    owned("-o", &mut r);
    owned("ConnectTimeout=8", &mut r);
    assert(views(r@) =~= seq!["ssh"@, "-o"@, "BatchMode=yes"@, "-o"@, "ConnectTimeout=8"@]);
    add_ssh_options(key, known_hosts, host, &mut r);
    owned("true", &mut r);
    r
}

// ---- Decisions ---------------------------------------------------------

/// What is said of a run of another workflow.
pub open spec fn unmanaged_text() -> Seq<char> {
    "run is not a Development runner workflow"@
}

/// The state of a run that is managed here.
pub open spec fn managed_state(details: DetailsView) -> Result<WorkflowState, Seq<char>> {
    if details.workflow_name != WORKFLOW_NAME@ {
        Err(unmanaged_text())
    } else {
        state_of(details.status)
    }
}

/// Why a run can't be connected to, if it can't.
pub open spec fn inactive_reason(details: DetailsView) -> Option<Seq<char>> {
    match managed_state(details) {
        Err(e) => Some(e),
        Ok(WorkflowState::Active) => None,
        Ok(WorkflowState::Completed) => Some(
            "workflow completed ("@ + match details.conclusion {
                Some(c) => c,
                None => "unknown"@,
            } + ")"@,
        ),
    }
}

/// Checks that a run is managed here and goes on.
pub fn ensure_active_details(details: &Details) -> (r: Result<(), String>)
    ensures
        match r {
            Ok(_) => inactive_reason(details@) is None,
            Err(e) => inactive_reason(details@) == Some(e@),
        },
{
    if !is_managed(details) {
        return Err("run is not a Development runner workflow".to_owned());
    }
    match classify_status(details.status.as_str()) {
        Err(e) => Err(e),
        Ok(WorkflowState::Active) => Ok(()),
        Ok(WorkflowState::Completed) => {
            let mut s = "workflow completed (".to_owned();
            match &details.conclusion {
                Some(c) => s.append(c.as_str()),
                None => s.append("unknown"),
            }
            s.append(")");
            Err(s)
        },
    }
}

#[derive(Clone, Copy, Debug, PartialEq, Eq, Structural)]
pub enum StopDecision {
    Active,
    Completed,
}

/// What `stop` has before it.
pub open spec fn stop_of(details: DetailsView) -> Result<StopDecision, Seq<char>> {
    match managed_state(details) {
        Err(e) => Err(e),
        Ok(WorkflowState::Active) => Ok(StopDecision::Active),
        Ok(WorkflowState::Completed) => Ok(StopDecision::Completed),
    }
}

pub fn stop_decision(details: &Details) -> (r: Result<StopDecision, String>)
    ensures
        match r {
            Ok(d) => stop_of(details@) == Ok::<StopDecision, Seq<char>>(d),
            Err(e) => stop_of(details@) == Err::<StopDecision, Seq<char>>(e@),
        },
{
    if !is_managed(details) {
        return Err("run is not a Development runner workflow".to_owned());
    }
    match classify_status(details.status.as_str()) {
        Err(e) => Err(e),
        Ok(WorkflowState::Active) => Ok(StopDecision::Active),
        Ok(WorkflowState::Completed) => Ok(StopDecision::Completed),
    }
}

/// A run of another workflow is neither connected to nor stopped.
pub proof fn law_other_workflows_are_left_alone(details: DetailsView)
    requires
        details.workflow_name != WORKFLOW_NAME@,
    ensures
        inactive_reason(details) == Some(unmanaged_text()),
        stop_of(details) == Err::<StopDecision, Seq<char>>(unmanaged_text()),
{
}

// ---- What the commands ask and take --------------------------------------

/// A lifetime is asked for in minutes: 30, 60, 120 or 240.
pub proof fn law_lifetimes_are_in_minutes()
    ensures
        minutes_text(DurationMinutes::Thirty) == decimal(30),
        minutes_text(DurationMinutes::Sixty) == decimal(60),
        minutes_text(DurationMinutes::OneTwenty) == decimal(120),
        minutes_text(DurationMinutes::TwoForty) == decimal(240),
{
    law_decimal_is_positional(3, 0);
    law_decimal_is_positional(0, 3);
    law_decimal_is_positional(6, 0);
    law_decimal_is_positional(0, 6);
    law_decimal_is_positional(0, 1);
    law_decimal_is_positional(1, 2);
    law_decimal_is_positional(12, 0);
    law_decimal_is_positional(0, 2);
    law_decimal_is_positional(2, 4);
    law_decimal_is_positional(24, 0);
    reveal_strlit("30");
    reveal_strlit("60");
    reveal_strlit("120");
    reveal_strlit("240");
    assert("30"@ =~= decimal(30));
    assert("60"@ =~= decimal(60));
    assert("120"@ =~= decimal(120));
    assert("240"@ =~= decimal(240));
}

/// A run is named by its number in decimal, where that fits; by nothing
/// with any other character in it, not even a sign.
pub proof fn law_runs_are_named_by_number(n: nat, value: Seq<char>, i: int)
    ensures
        n <= u64::MAX ==> run_id_of(decimal(n)) == Ok::<u64, Seq<char>>(n as u64),
        n > u64::MAX ==> run_id_of(decimal(n)) == Err::<u64, Seq<char>>("run ID is too large"@),
        value.len() == 0 ==> run_id_of(value) == Err::<u64, Seq<char>>("run ID must be numeric"@),
        0 <= i < value.len() && (value[i] < '0' || value[i] > '9') ==> run_id_of(value) == Err::<
            u64,
            Seq<char>,
        >("run ID must be numeric"@),
{
    law_decimal_reads_back(n);
    if 0 <= i < value.len() && (value[i] < '0' || value[i] > '9') {
        assert(!is_digit_char(value[i]));
    }
}

/// A number of cores is one that some runner has.
pub proof fn law_cores_are_a_choice(
    n: nat,
    sizes: Seq<(Seq<char>, Seq<char>)>,
    i: int,
    value: Seq<char>,
    e: Seq<char>,
)
    requires
        n <= u32::MAX,
    ensures
        0 <= i < sizes.len() && sizes[i].0 == decimal(n) ==> cores_of(decimal(n), Ok(sizes)) == Ok::<
            u32,
            Seq<char>,
        >(n as u32),
        (forall|k: int| 0 <= k < sizes.len() ==> #[trigger] sizes[k].0 != decimal(n)) ==> cores_of(
            decimal(n),
            Ok(sizes),
        ) == Err::<u32, Seq<char>>(
            "cores must be one of the choices in runner-sizes.json (got "@ + decimal(n) + ")"@,
        ),
        cores_of(decimal(n), Err(e)) == Err::<u32, Seq<char>>("unable to validate cores: "@ + e),
        value.len() == 0 || (0 < i < value.len() && (value[i] < '0' || value[i] > '9'))
            ==> cores_of(value, Ok(sizes)) == Err::<u32, Seq<char>>("cores must be numeric"@),
{
    law_numbers_read_back(n, u32::MAX as nat);
    law_only_digits_are_numbers(value, u32::MAX as nat, i);
    lemma_value_is_there(sizes, decimal(n));
    if value_of(sizes, decimal(n)) is Some {
        let k = choose|k: int|
            0 <= k < sizes.len() && #[trigger] sizes[k] == (
                decimal(n),
                value_of(sizes, decimal(n))->0,
            );
        assert(sizes[k].0 == decimal(n));
    }
    if 0 <= i < sizes.len() && sizes[i].0 == decimal(n) {
        lemma_entry_has_a_value(sizes, i);
    }
}

proof fn lemma_value_is_there(entries: Seq<(Seq<char>, Seq<char>)>, key: Seq<char>)
    ensures
        value_of(entries, key) is Some ==> exists|k: int|
            0 <= k < entries.len() && #[trigger] entries[k] == (key, value_of(entries, key)->0),
    decreases entries.len(),
{
    if entries.len() > 0 {
        if entries[0].0 == key {
            assert(entries[0] == (key, value_of(entries, key)->0));
        } else {
            let rest = entries.skip(1);
            lemma_value_is_there(rest, key);
            if value_of(entries, key) is Some {
                let k = choose|k: int|
                    0 <= k < rest.len() && #[trigger] rest[k] == (key, value_of(rest, key)->0);
                assert(entries[k + 1] == rest[k]);
            }
        }
    }
}

proof fn lemma_entry_has_a_value(entries: Seq<(Seq<char>, Seq<char>)>, i: int)
    requires
        0 <= i < entries.len(),
    ensures
        value_of(entries, entries[i].0) is Some,
    decreases entries.len(),
{
    if i > 0 && entries[0].0 != entries[i].0 {
        assert(entries.skip(1)[i - 1] == entries[i]);
        lemma_entry_has_a_value(entries.skip(1), i - 1);
    }
}

/// A choice of runner-sizes.json has a number in decimal, and a label that
/// shows something.
pub proof fn law_choices_have_numbers_and_labels(
    n: nat,
    key: Seq<char>,
    label: Seq<char>,
    i: int,
    j: int,
)
    ensures
        n <= u32::MAX && 0 <= j < label.len() && !is_space_char(label[j]) ==> is_size(
            (decimal(n), label),
        ),
        n > u32::MAX ==> !is_size((decimal(n), label)),
        is_blank(label) ==> !is_size((key, label)),
        key.len() == 0 || (0 < i < key.len() && (key[i] < '0' || key[i] > '9')) ==> !is_size(
            (key, label),
        ),
{
    law_numbers_read_back(n, u32::MAX as nat);
    law_only_digits_are_numbers(key, u32::MAX as nat, i);
    if 0 <= j < label.len() && !is_space_char(label[j]) {
        assert(!is_blank(label));
    }
}

/// What runner-sizes.json holds is read where it is an object of choices,
/// one at least: each has the label that stands by its number. Anything
/// else is told apart.
pub proof fn law_sizes_are_read(text: Seq<char>, fields: Seq<(Seq<char>, JsonView)>, i: int)
    ensures
        json_parse(text) is None || !(json_parse(text)->0 is Object) ==> sizes_of(text) == Err::<
            Seq<(Seq<char>, Seq<char>)>,
            Seq<char>,
        >("parsing runner-sizes.json"@),
        json_parse(text) == Some(JsonView::Object(fields)) ==> {
            let texts = forall|k: int| 0 <= k < fields.len() ==> (#[trigger] fields[k]).1 is Str;
            let good = |k: int| is_size((fields[k].0, fields[k].1->Str_0));
            let once = forall|k: int|
                0 <= k < fields.len() && k != i ==> (#[trigger] fields[k]).0 != fields[i].0;
            let bad = Err::<Seq<(Seq<char>, Seq<char>)>, Seq<char>>(
                "runner-sizes.json must contain numeric core choices with non-empty labels"@,
            );
            &&& 0 <= i < fields.len() && !(fields[i].1 is Str) ==> sizes_of(text) == Err::<
                Seq<(Seq<char>, Seq<char>)>,
                Seq<char>,
            >("parsing runner-sizes.json"@)
            &&& fields.len() == 0 ==> sizes_of(text) == bad
            &&& texts && 0 <= i < fields.len() && once && !good(i) ==> sizes_of(text) == bad
            &&& texts && fields.len() > 0 && (forall|k: int|
                #![trigger fields[k]]
                0 <= k < fields.len() ==> good(k)) ==> sizes_of(text) is Ok && (0 <= i
                < fields.len() && once ==> value_of(sizes_of(text)->Ok_0, fields[i].0) == Some(
                fields[i].1->Str_0,
            ))
        },
{
    if json_parse(text) == Some(JsonView::Object(fields)) {
        if 0 <= i < fields.len() && !(fields[i].1 is Str) {
            assert(fields.take(i + 1).last() == fields[i]);
            lemma_texts_of(fields, i + 1);
        }
        if forall|k: int| 0 <= k < fields.len() ==> (#[trigger] fields[k]).1 is Str {
            lemma_texts_are_those(fields, i);
            let texts = texts_of(fields)->0;
            if 0 <= i < fields.len() && (forall|k: int|
                0 <= k < fields.len() && k != i ==> (#[trigger] fields[k]).0 != fields[i].0) {
                lemma_value_is_there(texts, fields[i].0);
                let at = choose|k: int|
                    0 <= k < texts.len() && #[trigger] texts[k] == (
                        fields[i].0,
                        value_of(texts, fields[i].0)->0,
                    );
                if !is_size((fields[i].0, fields[i].1->Str_0)) {
                    assert(!is_size(texts[at]));
                }
            }
            if forall|k: int|
                #![trigger fields[k]]
                0 <= k < fields.len() ==> is_size((fields[k].0, fields[k].1->Str_0)) {
                assert forall|k: int| 0 <= k < texts.len() implies is_size(
                    #[trigger] texts[k],
                ) by {
                    let f = choose|f: int|
                        0 <= f < fields.len() && texts[k] == (
                            (#[trigger] fields[f]).0,
                            fields[f].1->Str_0,
                        );
                    assert(is_size((fields[f].0, fields[f].1->Str_0)));
                }
            }
        }
    }
}

/// The texts of an object are its fields: each is one of them, and the field
/// whose key comes once keeps its text.
proof fn lemma_texts_are_those(fields: Seq<(Seq<char>, JsonView)>, i: int)
    requires
        forall|k: int| 0 <= k < fields.len() ==> (#[trigger] fields[k]).1 is Str,
    ensures
        texts_of(fields) is Some,
        (texts_of(fields)->0).len() == 0 <==> fields.len() == 0,
        forall|k: int|
            0 <= k < (texts_of(fields)->0).len() ==> exists|f: int|
                0 <= f < fields.len() && #[trigger] (texts_of(fields)->0)[k] == (
                    (#[trigger] fields[f]).0,
                    fields[f].1->Str_0,
                ),
        0 <= i < fields.len() && (forall|k: int|
            0 <= k < fields.len() && k != i ==> (#[trigger] fields[k]).0 != fields[i].0)
            ==> value_of(texts_of(fields)->0, fields[i].0) == Some(fields[i].1->Str_0),
    decreases fields.len(),
{
    if fields.len() > 0 {
        let before = fields.drop_last();
        let last = fields.last();
        assert forall|k: int| 0 <= k < before.len() implies (#[trigger] before[k]).1 is Str by {
            assert(fields[k].1 is Str);
        }
        assert(fields[fields.len() - 1].1 is Str);
        lemma_texts_are_those(before, i);
        let old_texts = texts_of(before)->0;
        let texts = texts_of(fields)->0;
        lemma_placed_entries(old_texts, last.0, last.1->Str_0);
        assert forall|k: int| 0 <= k < texts.len() implies exists|f: int|
            0 <= f < fields.len() && #[trigger] texts[k] == (
                (#[trigger] fields[f]).0,
                fields[f].1->Str_0,
            ) by {
            if texts[k] == (last.0, last.1->Str_0) {
                assert(fields[fields.len() - 1] == last);
            } else {
                let o = choose|o: int| 0 <= o < old_texts.len() && texts[k] == #[trigger] old_texts[o];
                let f = choose|f: int|
                    0 <= f < before.len() && old_texts[o] == (
                        (#[trigger] before[f]).0,
                        before[f].1->Str_0,
                    );
                assert(fields[f] == before[f]);
            }
        }
        if 0 <= i < fields.len() && (forall|k: int|
            0 <= k < fields.len() && k != i ==> (#[trigger] fields[k]).0 != fields[i].0) {
            crate::table::law_placed_then_value(old_texts, last.0, last.1->Str_0, fields[i].0);
            if i < before.len() {
                assert(fields[fields.len() - 1].0 != fields[i].0);
                assert forall|k: int| 0 <= k < before.len() && k != i implies (
                #[trigger] before[k]).0 != before[i].0 by {
                    assert(fields[k].0 != fields[i].0);
                }
            }
        }
    }
}

proof fn lemma_placed_entries(
    entries: Seq<(Seq<char>, Seq<char>)>,
    key: Seq<char>,
    value: Seq<char>,
)
    ensures
        placed(entries, key, value).len() > 0,
        forall|k: int|
            0 <= k < placed(entries, key, value).len() ==> #[trigger] placed(
                entries,
                key,
                value,
            )[k] == (key, value) || exists|o: int|
                0 <= o < entries.len() && placed(entries, key, value)[k] == #[trigger] entries[o],
    decreases entries.len(),
{
    let after = placed(entries, key, value);
    if entries.len() > 0 {
        let rest = entries.skip(1);
        lemma_placed_entries(rest, key, value);
        assert forall|k: int| 0 <= k < after.len() implies #[trigger] after[k] == (key, value)
            || exists|o: int| 0 <= o < entries.len() && after[k] == #[trigger] entries[o] by {
            if entries[0].0 == key {
                if k > 0 {
                    assert(after[k] == entries[k]);
                }
            } else if crate::text::text_lt(key, entries[0].0) {
                if k > 0 {
                    assert(after[k] == entries[k - 1]);
                }
            } else if k == 0 {
                assert(after[k] == entries[0]);
            } else {
                let more = placed(rest, key, value);
                assert(after[k] == more[k - 1]);
                if more[k - 1] != (key, value) {
                    let o = choose|o: int|
                        0 <= o < rest.len() && more[k - 1] == #[trigger] rest[o];
                    assert(after[k] == entries[o + 1]);
                }
            }
        }
    }
}

/// The state is in `devspace` under XDG_STATE_HOME where that starts with a
/// slash; else in `.local/state/devspace` under a home that does.
pub proof fn law_state_is_under_its_base(xdg: Option<Seq<char>>, home: Option<Seq<char>>)
    ensures
        ({
            let absolute = |p: Option<Seq<char>>| p is Some && p->0.len() > 0 && p->0[0] == '/';
            &&& absolute(xdg) ==> root_of(xdg, home) == Ok::<Seq<char>, Seq<char>>(
                in_dir(xdg->0, "devspace"@),
            ) && base_of(xdg, home) == Some(StateBase::Xdg)
            &&& !absolute(xdg) && absolute(home) ==> root_of(xdg, home) == Ok::<
                Seq<char>,
                Seq<char>,
            >(in_dir(home->0, ".local/state/devspace"@)) && base_of(xdg, home) == Some(
                StateBase::Home,
            )
            &&& !absolute(xdg) && !absolute(home) ==> base_of(xdg, home) is None && root_of(
                xdg,
                home,
            ) == Err::<Seq<char>, Seq<char>>(
                "XDG_STATE_HOME is unusable and HOME is not a nonempty absolute path; cannot determine devspace state directory"@,
            )
        }),
{
}

proof fn lemma_hex_digits(n: int)
    requires
        0 <= n < 16,
    ensures
        hex_char(n) == "0123456789abcdef"@[n],
{
    reveal_strlit("0123456789abcdef");
    let d = "0123456789abcdef"@;
    assert(d[0] == '0' && d[1] == '1' && d[2] == '2' && d[3] == '3' && d[4] == '4' && d[5] == '5'
        && d[6] == '6' && d[7] == '7' && d[8] == '8' && d[9] == '9' && d[10] == 'a' && d[11] == 'b'
        && d[12] == 'c' && d[13] == 'd' && d[14] == 'e' && d[15] == 'f');
}

/// A session is named by its bytes in order, each of two hexadecimal digits,
/// the high one first.
pub proof fn law_sessions_are_named_in_hex(bytes: Seq<u8>, i: int)
    requires
        0 <= i < bytes.len(),
    ensures
        ({
            let name = session_text(bytes);
            let digits = "0123456789abcdef"@;
            let k = "session-"@.len() + 2 * i;
            &&& name.len() == "session-"@.len() + 2 * bytes.len()
            &&& name.take("session-"@.len() as int) == "session-"@
            &&& name[k] == digits[bytes[i] as int / 16]
            &&& name[k + 1] == digits[bytes[i] as int % 16]
        }),
{
    lemma_hex_length(bytes);
    lemma_hex_places(bytes, i);
    lemma_hex_digits(bytes[i] as int / 16);
    lemma_hex_digits(bytes[i] as int % 16);
    assert(session_text(bytes).take("session-"@.len() as int) =~= "session-"@);
}

proof fn lemma_hex_places(bytes: Seq<u8>, i: int)
    requires
        0 <= i < bytes.len(),
    ensures
        hex_text(bytes).len() == 2 * bytes.len(),
        hex_text(bytes)[2 * i] == hex_char(bytes[i] as int / 16),
        hex_text(bytes)[2 * i + 1] == hex_char(bytes[i] as int % 16),
    decreases bytes.len(),
{
    lemma_hex_length(bytes);
    lemma_hex_length(bytes.drop_last());
    if i < bytes.len() - 1 {
        lemma_hex_places(bytes.drop_last(), i);
    }
}

/// A program that failed is quoted: its standard error where that says
/// anything, else its standard output.
pub proof fn law_failed_programs_are_quoted(stdout: Seq<u8>, stderr: Seq<u8>)
    ensures
        !is_blank(utf8_text(stderr)) ==> diagnostic_of(stdout, stderr) == trimmed(
            utf8_text(stderr),
        ),
        is_blank(utf8_text(stderr)) && !is_blank(utf8_text(stdout)) ==> diagnostic_of(
            stdout,
            stderr,
        ) == trimmed(utf8_text(stdout)),
        is_blank(utf8_text(stderr)) && is_blank(utf8_text(stdout)) ==> diagnostic_of(stdout, stderr)
            == "command failed without diagnostics"@,
{
    law_blanks_are_trimmed_away(utf8_text(stdout));
    law_blanks_are_trimmed_away(utf8_text(stderr));
}

/// A run goes on, or has completed, by its status; no other status is known.
pub proof fn law_statuses_are_known(status: Seq<char>)
    ensures
        state_of("requested"@) == Ok::<WorkflowState, Seq<char>>(WorkflowState::Active),
        state_of("waiting"@) == Ok::<WorkflowState, Seq<char>>(WorkflowState::Active),
        state_of("pending"@) == Ok::<WorkflowState, Seq<char>>(WorkflowState::Active),
        state_of("queued"@) == Ok::<WorkflowState, Seq<char>>(WorkflowState::Active),
        state_of("in_progress"@) == Ok::<WorkflowState, Seq<char>>(WorkflowState::Active),
        state_of("completed"@) == Ok::<WorkflowState, Seq<char>>(WorkflowState::Completed),
        status != "requested"@ && status != "waiting"@ && status != "pending"@ && status
            != "queued"@ && status != "in_progress"@ && status != "completed"@ ==> state_of(status)
            == Err::<WorkflowState, Seq<char>>(
            "unexpected workflow status "@ + debug_text(status),
        ),
{
    reveal_strlit("requested");
    reveal_strlit("waiting");
    reveal_strlit("pending");
    reveal_strlit("queued");
    reveal_strlit("in_progress");
    reveal_strlit("completed");
    assert("completed"@.len() == 9 && "completed"@[0] == 'c');
    assert("requested"@[0] == 'r' && "waiting"@.len() == 7 && "pending"@.len() == 7
        && "queued"@.len() == 6 && "in_progress"@.len() == 11);
}

/// The first run with a status that no run has is told of; the statuses of
/// the runs after it don't matter.
pub proof fn law_first_unknown_status_is_told(runs: Seq<RunView>, i: int)
    requires
        0 <= i <= runs.len(),
        forall|k: int| 0 <= k < i ==> state_of((#[trigger] runs[k]).status) is Ok,
        i < runs.len() ==> state_of(runs[i].status) is Err,
    ensures
        i < runs.len() ==> first_bad_status(runs) == Some(state_of(runs[i].status)->Err_0),
        i == runs.len() ==> first_bad_status(runs) is None,
    decreases runs.len(),
{
    if runs.len() > 0 && i > 0 {
        assert(state_of(runs[0].status) is Ok);
        let rest = runs.skip(1);
        assert forall|k: int| 0 <= k < i - 1 implies state_of((#[trigger] rest[k]).status)
            is Ok by {
            assert(state_of(runs[k + 1].status) is Ok);
        }
        law_first_unknown_status_is_told(rest, i - 1);
    }
}

/// Active runs are listed in their order, each as often as it is there, and
/// completed ones are left out.
pub proof fn law_active_runs_keep_their_order(a: Seq<RunView>, b: Seq<RunView>, run: RunView)
    ensures
        active_of(a + b) == active_of(a) + active_of(b),
        state_of(run.status) == Ok::<WorkflowState, Seq<char>>(WorkflowState::Active)
            ==> active_of(seq![run]) == seq![run],
        state_of(run.status) == Ok::<WorkflowState, Seq<char>>(WorkflowState::Completed)
            ==> active_of(seq![run]).len() == 0,
        active_of(Seq::empty()).len() == 0,
    decreases b.len(),
{
    reveal_with_fuel(active_of, 2);
    assert(seq![run].drop_last() =~= Seq::empty());
    assert(Seq::empty().push(run) =~= seq![run]);
    if b.len() == 0 {
        assert(a + b =~= a);
        assert(active_of(a) + active_of(b) =~= active_of(a));
    } else {
        law_active_runs_keep_their_order(a, b.drop_last(), run);
        assert((a + b).drop_last() =~= a + b.drop_last());
        assert((a + b).last() == b.last());
        assert(active_of(a + b) =~= active_of(a) + active_of(b));
    }
}

/// A run is shown in one line, with tabs between: its number, its status, its
/// title and its address, and a dash for each that it lacks.
pub proof fn law_runs_are_shown_in_columns(run: RunView)
    ensures
        ({
            let shown = |text: Seq<char>| if text == Seq::<char>::empty() {
                seq!['-']
            } else {
                text
            };
            let id = if run.database_id is Some {
                decimal(run.database_id->0 as nat)
            } else {
                seq!['-']
            };
            run_line(run) == joined(
                seq![id, shown(run.status), shown(run.display_title), shown(run.url)],
                seq!['\t'],
            )
        }),
{
    reveal_strlit("-");
    reveal_strlit("\t");
    assert("-"@ =~= seq!['-']);
    assert("\t"@ =~= seq!['\t']);
    let id = if run.database_id is Some {
        decimal(run.database_id->0 as nat)
    } else {
        "-"@
    };
    let (s, t, u) = (or_dash(run.status), or_dash(run.display_title), or_dash(run.url));
    assert(run.status.len() == 0 <==> run.status =~= Seq::empty());
    assert(run.display_title.len() == 0 <==> run.display_title =~= Seq::empty());
    assert(run.url.len() == 0 <==> run.url =~= Seq::empty());
    let tab = "\t"@;
    law_joining_goes_on(seq![id], seq![s], tab);
    law_joining_goes_on(seq![s], seq![t], tab);
    law_joining_goes_on(seq![t], seq![u], tab);
    law_joining_goes_on(seq![u], seq![u], tab);
    law_joining_goes_on(seq![id, s], seq![t], tab);
    law_joining_goes_on(seq![id, s, t], seq![u], tab);
    assert(seq![id] + seq![s] =~= seq![id, s]);
    assert(seq![id, s] + seq![t] =~= seq![id, s, t]);
    assert(seq![id, s, t] + seq![u] =~= seq![id, s, t, u]);
}

/// A run is reached under its number.
pub proof fn law_hosts_are_named_by_their_run(id: u64)
    ensures
        host_of(id).take("cgwalters-devspace-"@.len() as int) == "cgwalters-devspace-"@,
        unsigned_value(host_of(id).skip("cgwalters-devspace-"@.len() as int), u64::MAX as nat)
            == Some(id as nat),
{
    law_numbers_read_back(id as nat, u64::MAX as nat);
    let n = "cgwalters-devspace-"@.len() as int;
    assert(host_of(id).take(n) =~= "cgwalters-devspace-"@);
    assert(host_of(id).skip(n) =~= decimal(id as nat));
}

/// The option FLAG has VALUE in a command line.
pub open spec fn is_given(argv: Seq<Seq<char>>, flag: Seq<char>, value: Seq<char>) -> bool {
    exists|i: int|
        #![trigger argv[i]]
        0 <= i < argv.len() - 1 && argv[i] == flag && argv[i + 1] == value
}

/// A run is dispatched with the inputs that were asked for.
pub proof fn law_runs_are_dispatched_as_asked(
    duration: DurationMinutes,
    cores: u32,
    key: Seq<char>,
    session: Seq<char>,
)
    ensures
        ({
            let argv = dispatch_argv(duration, cores, key, session);
            &&& argv.take(3) == seq!["workflow"@, "run"@, "devspace.yml"@]
            &&& is_given(argv, "--repo"@, "bootc-dev/cgwalters-devspace-sandbox"@)
            &&& is_given(argv, "--ref"@, "main"@)
            &&& is_given(argv, "-f"@, "duration"@ + "="@ + minutes_text(duration))
            &&& is_given(argv, "-f"@, "cores"@ + "="@ + decimal(cores as nat))
            &&& is_given(argv, "-f"@, "ssh_public_key"@ + "="@ + key)
            &&& is_given(argv, "-f"@, "session_name"@ + "="@ + session)
        }),
{
    let argv = dispatch_argv(duration, cores, key, session);
    assert(argv.take(3) =~= seq!["workflow"@, "run"@, "devspace.yml"@]);
    assert(argv[3] == "--repo"@ && argv[5] == "--ref"@);
    assert(argv[7] == "-f"@ && argv[9] == "-f"@ && argv[11] == "-f"@ && argv[13] == "-f"@);
}

/// Runs are listed, viewed and cancelled in their repository, and by their
/// number.
pub proof fn law_runs_are_asked_after(id: u64)
    ensures
        ({
            let repo = "bootc-dev/cgwalters-devspace-sandbox"@;
            let (list, view, cancel) = (list_argv(), view_argv(id), cancel_argv(id));
            &&& list.take(2) == seq!["run"@, "list"@]
            &&& is_given(list, "--repo"@, repo) && is_given(view, "--repo"@, repo) && is_given(
                cancel,
                "--repo"@,
                repo,
            )
            &&& is_given(list, "--workflow"@, "devspace.yml"@)
            &&& is_given(list, "--branch"@, "main"@)
            &&& is_given(list, "--event"@, "workflow_dispatch"@)
            &&& is_given(list, "--limit"@, "100"@)
            &&& is_given(list, "--json"@, "databaseId,createdAt,displayTitle,status,url"@)
            &&& view.take(3) == seq!["run"@, "view"@, decimal(id as nat)]
            &&& is_given(view, "--json"@, "workflowName,status,conclusion"@)
            &&& cancel.take(3) == seq!["run"@, "cancel"@, decimal(id as nat)]
        }),
{
    let (list, view, cancel) = (list_argv(), view_argv(id), cancel_argv(id));
    assert(list.take(2) =~= seq!["run"@, "list"@]);
    assert(view.take(3) =~= seq!["run"@, "view"@, decimal(id as nat)]);
    assert(cancel.take(3) =~= seq!["run"@, "cancel"@, decimal(id as nat)]);
    assert(list[2] == "--repo"@ && list[4] == "--workflow"@ && list[6] == "--branch"@);
    assert(list[8] == "--event"@ && list[10] == "--limit"@ && list[12] == "--json"@);
    assert(view[3] == "--repo"@ && view[5] == "--json"@ && cancel[3] == "--repo"@);
}

/// A session's key has no passphrase; a runner is connected to with that key
/// alone, and with the hosts known to the session.
pub proof fn law_runners_know_their_key(key: Seq<char>, known_hosts: Seq<char>, host: Seq<char>)
    ensures
        ({
            let keygen = keygen_argv(key);
            let ssh = ssh_options(key, known_hosts, host);
            &&& is_given(keygen, "-t"@, "ed25519"@) && is_given(keygen, "-N"@, ""@) && is_given(
                keygen,
                "-f"@,
                key,
            )
            &&& is_given(ssh, "-i"@, key)
            &&& is_given(ssh, "-o"@, "UserKnownHostsFile"@ + "="@ + known_hosts)
            &&& is_given(ssh, "-o"@, "StrictHostKeyChecking=accept-new"@)
            &&& is_given(ssh, "-o"@, "IdentitiesOnly=yes"@)
            &&& ssh.last() == "runner@"@ + host
        }),
{
    let keygen = keygen_argv(key);
    let ssh = ssh_options(key, known_hosts, host);
    assert(keygen[1] == "-t"@ && keygen[3] == "-N"@ && keygen[5] == "-f"@);
    assert(ssh[0] == "-i"@ && ssh[2] == "-o"@ && ssh[4] == "-o"@ && ssh[6] == "-o"@);
}

/// Only an active run of the workflow of this project is connected to, and
/// cancelled; a completed one is told with how it ended.
pub proof fn law_only_active_runs_are_connected_to(details: DetailsView)
    requires
        details.workflow_name == "Development runner"@,
    ensures
        state_of(details.status) == Ok::<WorkflowState, Seq<char>>(WorkflowState::Active)
            ==> inactive_reason(details) is None && stop_of(details) == Ok::<
            StopDecision,
            Seq<char>,
        >(StopDecision::Active),
        state_of(details.status) == Ok::<WorkflowState, Seq<char>>(WorkflowState::Completed) ==> {
            &&& stop_of(details) == Ok::<StopDecision, Seq<char>>(StopDecision::Completed)
            &&& details.conclusion is Some ==> inactive_reason(details) == Some(
                "workflow completed ("@ + details.conclusion->0 + ")"@,
            )
            &&& details.conclusion is None ==> inactive_reason(details) == Some(
                "workflow completed ("@ + "unknown"@ + ")"@,
            )
        },
        state_of(details.status) is Err ==> inactive_reason(details) == Some(
            state_of(details.status)->Err_0,
        ) && stop_of(details) == Err::<StopDecision, Seq<char>>(state_of(details.status)->Err_0),
{
}

/// A new session has a name of 32 hexadecimal digits, and any such name may
/// come; without random bytes, it is told why there are none.
pub proof fn law_new_sessions_have_hex_names(text: Seq<char>, bytes: Seq<u8>, why: Seq<char>)
    ensures
        is_session(text) ==> text.len() == "session-"@.len() + 32 && text.take(
            "session-"@.len() as int,
        ) == "session-"@,
        bytes.len() == 16 ==> is_session(session_text(bytes)),
        no_random_text(why) == "generating random session identifier: "@ + why,
{
    if is_session(text) {
        let named = choose|named: Seq<u8>|
            named.len() == 16 && text == #[trigger] session_text(named);
        law_sessions_are_named_in_hex(named, 0);
    }
}

} // verus!
