//! Answers `session/request_permission` from a policy.
//!
//! The sandbox (an unprivileged user, later a container or VM) is the
//! security boundary; this policy is for keeping the agent away from
//! actions a task shouldn't take (`git push`, writes outside the work
//! tree) and for an audit trail: every decision is recorded in the ACP
//! transcript, with the rule that made it.
//!
//! ```toml
//! default = "allow"
//!
//! [[rule]]
//! name = "no-push"
//! decision = "deny"
//! kind = ["execute"]
//! command = '\bgit\b.*\bpush\b'
//!
//! [[rule]]
//! name = "writes-in-work-only"
//! decision = "deny"
//! kind = ["edit", "delete", "move"]
//! outside = ["/home/runner-sandbox/work"]
//! ```
//!
//! Rules are tried in order and the first one that matches decides; with
//! none, `default` does. Every condition a rule sets must hold:
//!
//! - `kind`: the tool call's ACP kind is one of these (`read`, `edit`,
//!   `delete`, `move`, `search`, `execute`, `think`, `fetch`,
//!   `switch_mode`, `other`);
//! - `command`: a regex that matches the command of an `execute` call;
//! - `paths`: some path the call touches is at or under one of these;
//! - `outside`: some path the call touches is under none of these, or
//!   the call names no paths at all (so a deny rule fails closed);
//! - `paths` never matches a call that names no paths.
//!
//! An allow is answered with the agent's "allow once" option, never
//! "allow always", so every call comes back to the policy; an agent that
//! offers no "allow once" gets a rejection instead.

use crate::json::{at, items_of, json_text, json_views, str_of, str_or, Json, JsonView};
use crate::path::{
    add_path, all_plain, ascending, is_absolute, is_absolute_text, is_under,
    law_paths_are_ordered, law_resolved_is_absolute, normalize, normalized, path_lt, path_views,
    resolve, resolved, NormPath, PathView,
};
use crate::text::{contains, copy_all, copy_opt, join, joined, own_opt, same};
use crate::views::{opt_view, views, views_empty, views_push};
use vstd::prelude::*;

verus! {

broadcast use {views_push, views_empty};

/// The `_meta` key under which the harness records its decision in the
/// permission response, so the transcript says why.
pub const META_KEY: &'static str = "botHarness";

#[derive(Debug, Clone, Copy, PartialEq, Eq, Structural)]
pub enum Decision {
    Allow,
    Deny,
}

impl Decision {
    pub fn as_str(self) -> (r: &'static str)
        ensures
            r@ == decision_text(self),
    {
        match self {
            Decision::Allow => "allow",
            Decision::Deny => "deny",
        }
    }
}

/// What a decision is called.
pub open spec fn decision_text(d: Decision) -> Seq<char> {
    match d {
        Decision::Allow => "allow"@,
        Decision::Deny => "deny"@,
    }
}

// ---- Policies ----------------------------------------------------------

/// A policy as its file gives it.
#[derive(Debug)]
pub struct PolicyFile {
    pub default: Decision,
    pub rule: Vec<RuleFile>,
}

/// A rule as the policy file gives it.
#[derive(Debug)]
pub struct RuleFile {
    pub name: String,
    pub decision: Decision,
    pub kind: Vec<String>,
    pub command: Option<String>,
    pub paths: Vec<String>,
    pub outside: Vec<String>,
}

/// What a rule of a policy file holds.
#[verifier::ext_equal]
pub struct RuleFileView {
    pub name: Seq<char>,
    pub decision: Decision,
    pub kind: Seq<Seq<char>>,
    pub command: Option<Seq<char>>,
    pub paths: Seq<Seq<char>>,
    pub outside: Seq<Seq<char>>,
}

impl View for RuleFile {
    type V = RuleFileView;

    open spec fn view(&self) -> RuleFileView {
        RuleFileView {
            name: self.name@,
            decision: self.decision,
            kind: views(self.kind@),
            command: opt_view(self.command),
            paths: views(self.paths@),
            outside: views(self.outside@),
        }
    }
}

/// The rules of a policy file.
pub open spec fn rule_file_views(v: Seq<RuleFile>) -> Seq<RuleFileView> {
    Seq::new(v.len(), |i: int| v[i]@)
}

/// A rule whose conditions have been checked: its command is the source of
/// a regex, and its paths are resolved.
#[derive(Debug)]
pub struct Rule {
    pub name: String,
    pub decision: Decision,
    pub kinds: Vec<String>,
    pub command: Option<String>,
    pub paths: Vec<NormPath>,
    pub outside: Vec<NormPath>,
}

/// What a rule holds.
#[verifier::ext_equal]
pub struct RuleView {
    pub name: Seq<char>,
    pub decision: Decision,
    pub kinds: Seq<Seq<char>>,
    pub command: Option<Seq<char>>,
    pub paths: Seq<PathView>,
    pub outside: Seq<PathView>,
}

impl View for Rule {
    type V = RuleView;

    open spec fn view(&self) -> RuleView {
        RuleView {
            name: self.name@,
            decision: self.decision,
            kinds: views(self.kinds@),
            command: opt_view(self.command),
            paths: path_views(self.paths@),
            outside: path_views(self.outside@),
        }
    }
}

/// The rules of a list.
pub open spec fn rule_views(v: Seq<Rule>) -> Seq<RuleView> {
    Seq::new(v.len(), |i: int| v[i]@)
}

#[derive(Debug)]
pub struct Policy {
    pub default: Decision,
    pub rules: Vec<Rule>,
}

/// What a policy holds.
#[verifier::ext_equal]
pub struct PolicyView {
    pub default: Decision,
    pub rules: Seq<RuleView>,
}

impl View for Policy {
    type V = PolicyView;

    open spec fn view(&self) -> PolicyView {
        PolicyView { default: self.default, rules: rule_views(self.rules@) }
    }
}

/// What is wrong with a policy file.
#[derive(Debug)]
pub enum PolicyError {
    /// A rule, and a tool kind of it that ACP v1 doesn't define.
    UnknownKind(String, String),
    /// A rule, and a path of it that doesn't start at the root.
    NotAbsolute(String, String),
    /// A rule, and what is wrong with the regex of its command.
    BadRegex(String, String),
}

/// What an error says.
pub enum PolicyErrorView {
    UnknownKind(Seq<char>, Seq<char>),
    NotAbsolute(Seq<char>, Seq<char>),
    BadRegex(Seq<char>, Seq<char>),
}

impl View for PolicyError {
    type V = PolicyErrorView;

    open spec fn view(&self) -> PolicyErrorView {
        match self {
            PolicyError::UnknownKind(rule, kind) => PolicyErrorView::UnknownKind(rule@, kind@),
            PolicyError::NotAbsolute(rule, path) => PolicyErrorView::NotAbsolute(rule@, path@),
            PolicyError::BadRegex(rule, reason) => PolicyErrorView::BadRegex(rule@, reason@),
        }
    }
}

/// An error in words.
pub open spec fn policy_error_text(e: PolicyErrorView) -> Seq<char> {
    match e {
        PolicyErrorView::UnknownKind(rule, kind) => "rule "@ + rule + ": unknown tool kind '"@
            + kind + "' (one of: "@ + kinds_text() + ")"@,
        PolicyErrorView::NotAbsolute(rule, path) => "rule "@ + rule + ": path "@ + path
            + " is not absolute"@,
        PolicyErrorView::BadRegex(rule, reason) => "rule "@ + rule + ": bad command regex: "@
            + reason,
    }
}

/// The tool call kinds, as a list in words.
pub open spec fn kinds_text() -> Seq<char> {
    "read, edit, delete, move, search, execute, think, fetch, switch_mode, other"@
}

impl PolicyError {
    /// The error in words.
    pub fn message(&self) -> (r: String)
        ensures
            r@ == policy_error_text(self@),
    {
        let mut s = "rule ".to_owned();
        match self {
            PolicyError::UnknownKind(rule, kind) => {
                s.append(rule.as_str());
                s.append(": unknown tool kind '");
                s.append(kind.as_str());
                s.append("' (one of: ");
                s.append(
                    "read, edit, delete, move, search, execute, think, fetch, switch_mode, other",
                );
                s.append(")");
            },
            PolicyError::NotAbsolute(rule, path) => {
                s.append(rule.as_str());
                s.append(": path ");
                s.append(path.as_str());
                s.append(" is not absolute");
            },
            PolicyError::BadRegex(rule, reason) => {
                s.append(rule.as_str());
                s.append(": bad command regex: ");
                s.append(reason.as_str());
            },
        }
        s
    }
}

// ---- Regexes -----------------------------------------------------------

/// Why `Regex::new` refuses a pattern; nothing where it takes it.
pub uninterp spec fn regex_refusal(pattern: Seq<char>) -> Option<Seq<char>>;

/// What `Regex::is_match` says of a text, for the regex of a pattern;
/// nothing where the pattern is no regex.
pub uninterp spec fn regex_match(pattern: Seq<char>, text: Seq<char>) -> Option<bool>;

/// `Regex::new`: none where PATTERN is a regex, else its error in words.
#[verifier::external_body]
fn regex_error(pattern: &str) -> (r: Option<String>)
    ensures
        opt_view(r) == regex_refusal(pattern@),
{
    regex::Regex::new(pattern).err().map(|e| e.to_string())
}

/// `Regex::is_match`, of the regex that `Regex::new` makes of PATTERN:
/// whether it matches anywhere in TEXT. None exactly where PATTERN is no
/// regex.
#[verifier::external_body]
fn regex_is_match(pattern: &str, text: &str) -> (r: Option<bool>)
    ensures
        r == regex_match(pattern@, text@),
        r is None <==> regex_refusal(pattern@) is Some,
{
    regex::Regex::new(pattern).ok().map(|re| re.is_match(text))
}

// ---- Reading a policy --------------------------------------------------

/// The tool call kinds ACP v1 defines.
pub open spec fn is_kind(kind: Seq<char>) -> bool {
    kind == "read"@ || kind == "edit"@ || kind == "delete"@ || kind == "move"@ || kind
        == "search"@ || kind == "execute"@ || kind == "think"@ || kind == "fetch"@ || kind
        == "switch_mode"@ || kind == "other"@
}

fn known_kind(kind: &str) -> (r: bool)
    ensures
        r == is_kind(kind@),
{
    same(kind, "read") || same(kind, "edit") || same(kind, "delete") || same(kind, "move") || same(
        kind,
        "search",
    ) || same(kind, "execute") || same(kind, "think") || same(kind, "fetch") || same(
        kind,
        "switch_mode",
    ) || same(kind, "other")
}

/// The first of KINDS that ACP v1 doesn't define.
pub open spec fn first_unknown(kinds: Seq<Seq<char>>) -> Option<Seq<char>>
    decreases kinds.len(),
{
    if kinds.len() == 0 {
        None
    } else if !is_kind(kinds[0]) {
        Some(kinds[0])
    } else {
        first_unknown(kinds.skip(1))
    }
}

/// The first of PATHS that doesn't start at the root.
pub open spec fn first_relative(paths: Seq<Seq<char>>) -> Option<Seq<char>>
    decreases paths.len(),
{
    if paths.len() == 0 {
        None
    } else if !is_absolute_text(paths[0]) {
        Some(paths[0])
    } else {
        first_relative(paths.skip(1))
    }
}

/// What a list of paths resolves to.
pub open spec fn all_normalized(paths: Seq<Seq<char>>) -> Seq<PathView> {
    Seq::new(paths.len(), |i: int| normalized(paths[i]))
}

/// What a rule of a policy file is as a rule, or what is wrong with it.
pub open spec fn rule_of(r: RuleFileView) -> Result<RuleView, PolicyErrorView> {
    let unknown = first_unknown(r.kind);
    let relative = first_relative(r.paths);
    let relative_outside = first_relative(r.outside);
    let refusal = match r.command {
        Some(p) => regex_refusal(p),
        None => None,
    };
    if unknown is Some {
        Err(PolicyErrorView::UnknownKind(r.name, unknown->0))
    } else if relative is Some {
        Err(PolicyErrorView::NotAbsolute(r.name, relative->0))
    } else if relative_outside is Some {
        Err(PolicyErrorView::NotAbsolute(r.name, relative_outside->0))
    } else if refusal is Some {
        Err(PolicyErrorView::BadRegex(r.name, refusal->0))
    } else {
        Ok(
            RuleView {
                name: r.name,
                decision: r.decision,
                kinds: r.kind,
                command: r.command,
                paths: all_normalized(r.paths),
                outside: all_normalized(r.outside),
            },
        )
    }
}

/// The rules of a policy file, or what is wrong with the first bad one.
pub open spec fn rules_of(rules: Seq<RuleFileView>) -> Result<Seq<RuleView>, PolicyErrorView>
    decreases rules.len(),
{
    if rules.len() == 0 {
        Ok(Seq::empty())
    } else {
        match rules_of(rules.drop_last()) {
            Err(e) => Err(e),
            Ok(before) => match rule_of(rules.last()) {
                Err(e) => Err(e),
                Ok(r) => Ok(before.push(r)),
            },
        }
    }
}

fn find_unknown(kinds: &Vec<String>) -> (r: Option<String>)
    ensures
        opt_view(r) == first_unknown(views(kinds@)),
{
    let ghost all = views(kinds@);
    let mut i: usize = 0;
    assert(all.skip(0) =~= all);
    while i < kinds.len()
        invariant
            i <= kinds@.len(),
            all == views(kinds@),
            first_unknown(all) == first_unknown(all.skip(i as int)),
        decreases kinds@.len() - i,
    {
        assert(all.skip(i as int)[0] == kinds@[i as int]@);
        if !known_kind(kinds[i].as_str()) {
            return Some(kinds[i].clone());
        }
        assert(all.skip(i as int).skip(1) =~= all.skip(i + 1));
        i += 1;
    }
    None
}

fn find_relative(paths: &Vec<String>) -> (r: Option<String>)
    ensures
        opt_view(r) == first_relative(views(paths@)),
{
    let ghost all = views(paths@);
    let mut i: usize = 0;
    assert(all.skip(0) =~= all);
    while i < paths.len()
        invariant
            i <= paths@.len(),
            all == views(paths@),
            first_relative(all) == first_relative(all.skip(i as int)),
        decreases paths@.len() - i,
    {
        assert(all.skip(i as int)[0] == paths@[i as int]@);
        if !is_absolute(paths[i].as_str()) {
            return Some(paths[i].clone());
        }
        assert(all.skip(i as int).skip(1) =~= all.skip(i + 1));
        i += 1;
    }
    None
}

fn normalize_all(paths: &Vec<String>) -> (r: Vec<NormPath>)
    ensures
        path_views(r@) == all_normalized(views(paths@)),
{
    let mut r: Vec<NormPath> = Vec::new();
    for i in 0..paths.len()
        invariant
            r@.len() == i,
            forall|k: int| 0 <= k < i ==> (#[trigger] r@[k])@ == normalized(views(paths@)[k]),
    {
        r.push(normalize(paths[i].as_str()));
    }
    assert(path_views(r@) =~= all_normalized(views(paths@)));
    r
}

fn check_rule(r: &RuleFile) -> (res: Result<Rule, PolicyError>)
    ensures
        match res {
            Ok(rule) => rule_of(r@) == Ok::<RuleView, PolicyErrorView>(rule@),
            Err(e) => rule_of(r@) == Err::<RuleView, PolicyErrorView>(e@),
        },
{
    if let Some(kind) = find_unknown(&r.kind) {
        return Err(PolicyError::UnknownKind(r.name.clone(), kind));
    }
    if let Some(p) = find_relative(&r.paths) {
        return Err(PolicyError::NotAbsolute(r.name.clone(), p));
    }
    if let Some(p) = find_relative(&r.outside) {
        return Err(PolicyError::NotAbsolute(r.name.clone(), p));
    }
    if let Some(pattern) = &r.command {
        if let Some(reason) = regex_error(pattern.as_str()) {
            return Err(PolicyError::BadRegex(r.name.clone(), reason));
        }
    }
    Ok(
        Rule {
            name: r.name.clone(),
            decision: r.decision,
            kinds: copy_all(&r.kind),
            command: copy_opt(&r.command),
            paths: normalize_all(&r.paths),
            outside: normalize_all(&r.outside),
        },
    )
}

// ---- Deciding ----------------------------------------------------------

/// What a permission request asks for, taken from its `toolCall`.
#[derive(Debug)]
pub struct Request {
    pub kind: String,
    pub title: String,
    pub command: Option<String>,
    /// Absolute and lexically normalized.
    pub paths: Vec<NormPath>,
}

/// What a request asks for.
#[verifier::ext_equal]
pub struct RequestView {
    pub kind: Seq<char>,
    pub title: Seq<char>,
    pub command: Option<Seq<char>>,
    pub paths: Seq<PathView>,
}

impl View for Request {
    type V = RequestView;

    open spec fn view(&self) -> RequestView {
        RequestView {
            kind: self.kind@,
            title: self.title@,
            command: opt_view(self.command),
            paths: path_views(self.paths@),
        }
    }
}

/// A decision and the rule that made it (`None`: the default).
#[derive(Debug, PartialEq)]
pub struct Verdict {
    pub decision: Decision,
    pub rule: Option<String>,
}

/// What a verdict holds.
#[verifier::ext_equal]
pub struct VerdictView {
    pub decision: Decision,
    pub rule: Option<Seq<char>>,
}

impl View for Verdict {
    type V = VerdictView;

    open spec fn view(&self) -> VerdictView {
        VerdictView { decision: self.decision, rule: opt_view(self.rule) }
    }
}

/// PATH is at or under one of DIRS.
pub open spec fn is_under_any(path: PathView, dirs: Seq<PathView>) -> bool {
    exists|i: int| 0 <= i < dirs.len() && is_under(path, #[trigger] dirs[i])
}

/// The condition `kind` holds.
pub open spec fn kind_holds(rule: RuleView, req: RequestView) -> bool {
    rule.kinds.len() == 0 || rule.kinds.contains(req.kind)
}

/// The condition `command` holds: the regex matches the command of an
/// `execute` call.
pub open spec fn command_holds(rule: RuleView, req: RequestView) -> bool {
    match rule.command {
        None => true,
        Some(p) => req.kind == "execute"@ && req.command is Some && regex_match(p, req.command->0)
            == Some(true),
    }
}

/// The condition `paths` holds: some path of the call is at or under one of
/// these.
pub open spec fn paths_hold(rule: RuleView, req: RequestView) -> bool {
    rule.paths.len() == 0 || exists|i: int|
        0 <= i < req.paths.len() && is_under_any(#[trigger] req.paths[i], rule.paths)
}

/// The condition `outside` holds: some path of the call is under none of
/// these, or it names none at all.
pub open spec fn outside_holds(rule: RuleView, req: RequestView) -> bool {
    rule.outside.len() == 0 || req.paths.len() == 0 || exists|i: int|
        0 <= i < req.paths.len() && !is_under_any(#[trigger] req.paths[i], rule.outside)
}

/// Every condition that a rule sets holds.
pub open spec fn rule_matches(rule: RuleView, req: RequestView) -> bool {
    kind_holds(rule, req) && command_holds(rule, req) && paths_hold(rule, req) && outside_holds(
        rule,
        req,
    )
}

/// The first rule that matches decides; with none, the default does.
pub open spec fn decided(policy: PolicyView, req: RequestView) -> VerdictView
    decreases policy.rules.len(),
{
    if policy.rules.len() == 0 {
        VerdictView { decision: policy.default, rule: None }
    } else if rule_matches(policy.rules[0], req) {
        VerdictView { decision: policy.rules[0].decision, rule: Some(policy.rules[0].name) }
    } else {
        decided(PolicyView { default: policy.default, rules: policy.rules.skip(1) }, req)
    }
}

fn under_any(path: &NormPath, dirs: &Vec<NormPath>) -> (r: bool)
    ensures
        r == is_under_any(path@, path_views(dirs@)),
{
    for i in 0..dirs.len()
        invariant
            forall|k: int|
                0 <= k < i ==> !is_under(path@, #[trigger] path_views(dirs@)[k]),
    {
        if path.starts_with(&dirs[i]) {
            assert(is_under(path@, path_views(dirs@)[i as int]));
            return true;
        }
        assert(path_views(dirs@)[i as int] == dirs@[i as int]@);
    }
    false
}

/// Whether some of PATHS is under one of DIRS.
fn some_inside(paths: &Vec<NormPath>, dirs: &Vec<NormPath>) -> (r: bool)
    ensures
        r == exists|i: int|
            0 <= i < path_views(paths@).len() && is_under_any(
                #[trigger] path_views(paths@)[i],
                path_views(dirs@),
            ),
{
    for i in 0..paths.len()
        invariant
            forall|k: int|
                0 <= k < i ==> !is_under_any(#[trigger] path_views(paths@)[k], path_views(dirs@)),
    {
        assert(path_views(paths@)[i as int] == paths@[i as int]@);
        if under_any(&paths[i], dirs) {
            return true;
        }
    }
    false
}

/// Whether some of PATHS is under none of DIRS.
fn some_outside(paths: &Vec<NormPath>, dirs: &Vec<NormPath>) -> (r: bool)
    ensures
        r == exists|i: int|
            0 <= i < path_views(paths@).len() && !is_under_any(
                #[trigger] path_views(paths@)[i],
                path_views(dirs@),
            ),
{
    for i in 0..paths.len()
        invariant
            forall|k: int|
                0 <= k < i ==> is_under_any(#[trigger] path_views(paths@)[k], path_views(dirs@)),
    {
        assert(path_views(paths@)[i as int] == paths@[i as int]@);
        if !under_any(&paths[i], dirs) {
            return true;
        }
    }
    false
}

impl Rule {
    /// Whether every condition of the rule holds.
    pub fn matches(&self, req: &Request) -> (r: bool)
        ensures
            r == rule_matches(self@, req@),
    {
        let kind = self.kinds.len() == 0 || contains(&self.kinds, req.kind.as_str());
        let command = match &self.command {
            None => true,
            Some(p) => same(req.kind.as_str(), "execute") && match &req.command {
                None => false,
                Some(c) => match regex_is_match(p.as_str(), c.as_str()) {
                    Some(b) => b,
                    None => false,
                },
            },
        };
        let paths = self.paths.len() == 0 || some_inside(&req.paths, &self.paths);
        let outside = self.outside.len() == 0 || req.paths.len() == 0 || some_outside(
            &req.paths,
            &self.outside,
        );
        assert(self@.paths == path_views(self.paths@));
        assert(req@.paths == path_views(req.paths@));
        kind && command && paths && outside
    }
}

impl Policy {
    /// Allows everything; for runs without a policy file.
    pub fn allow_all() -> (r: Policy)
        ensures
            r@ == (PolicyView { default: Decision::Allow, rules: Seq::empty() }),
    {
        let r = Policy { default: Decision::Allow, rules: Vec::new() };
        assert(r@.rules =~= Seq::<RuleView>::empty());
        r
    }

    /// The policy of a policy file.
    pub fn parse(file: &PolicyFile) -> (res: Result<Policy, PolicyError>)
        ensures
            match res {
                Ok(p) => p@.default == file.default && rules_of(rule_file_views(file.rule@))
                    == Ok::<Seq<RuleView>, PolicyErrorView>(p@.rules),
                Err(e) => rules_of(rule_file_views(file.rule@)) == Err::<
                    Seq<RuleView>,
                    PolicyErrorView,
                >(e@),
            },
    {
        let ghost all = rule_file_views(file.rule@);
        let mut rules: Vec<Rule> = Vec::new();
        assert(all.take(0) =~= Seq::<RuleFileView>::empty());
        assert(rule_views(rules@) =~= Seq::<RuleView>::empty());
        for i in 0..file.rule.len()
            invariant
                all == rule_file_views(file.rule@),
                rules_of(all.take(i as int)) == Ok::<Seq<RuleView>, PolicyErrorView>(
                    rule_views(rules@),
                ),
        {
            assert(all.take(i + 1).drop_last() =~= all.take(i as int));
            assert(all.take(i + 1).last() == file.rule@[i as int]@);
            match check_rule(&file.rule[i]) {
                Ok(r) => {
                    let ghost before = rule_views(rules@);
                    rules.push(r);
                    assert(rule_views(rules@) =~= before.push(r@));
                },
                Err(e) => {
                    proof {
                        lemma_first_error_stands(all, i + 1);
                    }
                    return Err(e);
                },
            }
        }
        assert(all.take(file.rule@.len() as int) =~= all);
        Ok(Policy { default: file.default, rules })
    }

    /// The verdict on a request.
    pub fn decide(&self, req: &Request) -> (r: Verdict)
        ensures
            r@ == decided(self@, req@),
    {
        let ghost all = rule_views(self.rules@);
        let mut i: usize = 0;
        assert(all.skip(0) =~= all);
        while i < self.rules.len()
            invariant
                i <= self.rules@.len(),
                all == rule_views(self.rules@),
                decided(self@, req@) == decided(
                    PolicyView { default: self.default, rules: all.skip(i as int) },
                    req@,
                ),
            decreases self.rules@.len() - i,
        {
            assert(all.skip(i as int)[0] == self.rules@[i as int]@);
            if self.rules[i].matches(req) {
                return Verdict {
                    decision: self.rules[i].decision,
                    rule: Some(self.rules[i].name.clone()),
                };
            }
            assert(all.skip(i as int).skip(1) =~= all.skip(i + 1));
            i += 1;
        }
        Verdict { decision: self.default, rule: None }
    }
}

proof fn lemma_first_error_stands(rules: Seq<RuleFileView>, n: int)
    requires
        0 <= n <= rules.len(),
        rules_of(rules.take(n)) is Err,
    ensures
        rules_of(rules) == rules_of(rules.take(n)),
    decreases rules.len(),
{
    if n == rules.len() {
        assert(rules.take(n) =~= rules);
    } else {
        assert(rules.drop_last().take(n) =~= rules.take(n));
        lemma_first_error_stands(rules.drop_last(), n);
    }
}

// ---- Requests ----------------------------------------------------------

/// An item of a command list as text.
pub open spec fn word(v: JsonView) -> Seq<char> {
    match str_of(v) {
        Some(s) => s,
        None => json_text(v),
    }
}

/// The command of a tool call's input: a text, or a list of words.
pub open spec fn command_in(v: JsonView) -> Option<Seq<char>> {
    match v {
        JsonView::Str(s) => Some(s),
        JsonView::Array(a) => Some(joined(Seq::new(a.len(), |i: int| word(a[i])), " "@)),
        _ => None,
    }
}

/// PATH is named by a tool call: by one of its locations, or in its input
/// under one of the keys that hold a path.
pub open spec fn names_path(call: JsonView, path: Seq<char>) -> bool {
    let locations = items_of(at(call, "locations"@));
    let input = at(call, "rawInput"@);
    ||| exists|i: int|
        0 <= i < locations.len() && str_of(at(#[trigger] locations[i], "path"@)) == Some(path)
    ||| str_of(at(input, "file_path"@)) == Some(path)
    ||| str_of(at(input, "filePath"@)) == Some(path)
    ||| str_of(at(input, "notebook_path"@)) == Some(path)
    ||| str_of(at(input, "path"@)) == Some(path)
}

/// P is what a path that the call names resolves to from CWD.
pub open spec fn touches(call: JsonView, cwd: Seq<char>, p: PathView) -> bool {
    exists|path: Seq<char>| #[trigger] names_path(call, path) && p == resolved(cwd, path)
}

/// What a permission request with these params asks for.
pub open spec fn is_request(req: RequestView, params: JsonView, cwd: Seq<char>) -> bool {
    let call = at(params, "toolCall"@);
    &&& req.kind == str_or(at(call, "kind"@), "other"@)
    &&& req.title == str_or(at(call, "title"@), ""@)
    &&& req.command == command_in(at(at(call, "rawInput"@), "command"@))
    &&& ascending(req.paths)
    &&& forall|p: PathView| #[trigger] req.paths.contains(p) <==> touches(call, cwd, p)
}

fn words(a: &Vec<Json>) -> (r: Vec<String>)
    ensures
        views(r@) == Seq::new(a@.len(), |i: int| word(json_views(a@)[i])),
{
    let mut r: Vec<String> = Vec::new();
    for i in 0..a.len()
        invariant
            r@.len() == i,
            forall|k: int| 0 <= k < i ==> (#[trigger] r@[k])@ == word(json_views(a@)[k]),
    {
        let w = match a[i].as_str() {
            Some(s) => s.to_owned(),
            None => a[i].to_text(),
        };
        r.push(w);
    }
    assert(views(r@) =~= Seq::new(a@.len(), |i: int| word(json_views(a@)[i])));
    r
}

/// The paths that the first N locations of a call name, from CWD.
spec fn located(locations: Seq<JsonView>, n: int, cwd: Seq<char>, p: PathView) -> bool {
    exists|i: int|
        0 <= i < n && str_of(at(#[trigger] locations[i], "path"@)) is Some && p == resolved(
            cwd,
            str_of(at(locations[i], "path"@))->0,
        )
}

fn location_paths(call: &Json, cwd: &str) -> (r: Vec<NormPath>)
    ensures
        ascending(path_views(r@)),
        ({
            let locations = items_of(at(call@, "locations"@));
            forall|p: PathView| #[trigger]
                path_views(r@).contains(p) <==> located(
                    locations,
                    locations.len() as int,
                    cwd@,
                    p,
                )
        }),
{
    let mut r: Vec<NormPath> = Vec::new();
    if let Some(list) = call.at("locations").as_array() {
        let ghost all = json_views(list@);
        for i in 0..list.len()
            invariant
                all == json_views(list@),
                ascending(path_views(r@)),
                forall|p: PathView| #[trigger]
                    path_views(r@).contains(p) <==> located(all, i as int, cwd@, p),
        {
            let ghost was = path_views(r@);
            assert(all[i as int] == list@[i as int]@);
            if let Some(path) = list[i].at("path").as_str() {
                add_path(&mut r, resolve(cwd, path));
            }
            assert forall|p: PathView| #[trigger]
                path_views(r@).contains(p) <==> located(all, i + 1, cwd@, p) by {
                assert(was.contains(p) <==> located(all, i as int, cwd@, p));
                if located(all, i as int, cwd@, p) {
                    let k = choose|k: int|
                        0 <= k < i && str_of(at(#[trigger] all[k], "path"@)) is Some && p
                            == resolved(cwd@, str_of(at(all[k], "path"@))->0);
                    assert(str_of(at(all[k], "path"@)) is Some);
                }
                if located(all, i + 1, cwd@, p) {
                    let k = choose|k: int|
                        0 <= k < i + 1 && str_of(at(#[trigger] all[k], "path"@)) is Some && p
                            == resolved(cwd@, str_of(at(all[k], "path"@))->0);
                    if k < i {
                        assert(located(all, i as int, cwd@, p));
                    }
                }
            }
        }
    }
    r
}

/// Adds what the input names under KEY.
fn add_input_path(paths: &mut Vec<NormPath>, input: &Json, key: &str, cwd: &str)
    requires
        ascending(path_views(old(paths)@)),
    ensures
        ascending(path_views(final(paths)@)),
        forall|p: PathView| #[trigger]
            path_views(final(paths)@).contains(p) <==> path_views(old(paths)@).contains(p) || (
            str_of(at(input@, key@)) is Some && p == resolved(
                cwd@,
                str_of(at(input@, key@))->0,
            )),
{
    if let Some(path) = input.at(key).as_str() {
        add_path(paths, resolve(cwd, path));
    }
}

fn call_paths(call: &Json, cwd: &str) -> (r: Vec<NormPath>)
    ensures
        ascending(path_views(r@)),
        forall|p: PathView| #[trigger] path_views(r@).contains(p) <==> touches(call@, cwd@, p),
{
    let mut r = location_paths(call, cwd);
    let ghost locations = items_of(at(call@, "locations"@));
    let ghost first = path_views(r@);
    let input = call.at("rawInput");
    add_input_path(&mut r, input, "file_path", cwd);
    add_input_path(&mut r, input, "filePath", cwd);
    add_input_path(&mut r, input, "notebook_path", cwd);
    add_input_path(&mut r, input, "path", cwd);
    assert forall|p: PathView| #[trigger] path_views(r@).contains(p) <==> touches(
        call@,
        cwd@,
        p,
    ) by {
        let i = at(call@, "rawInput"@);
        let n = locations.len() as int;
        assert(first.contains(p) <==> located(locations, n, cwd@, p));
        if located(locations, n, cwd@, p) {
            let k = choose|k: int|
                0 <= k < n && str_of(at(#[trigger] locations[k], "path"@)) is Some && p
                    == resolved(cwd@, str_of(at(locations[k], "path"@))->0);
            assert(names_path(call@, str_of(at(locations[k], "path"@))->0));
        }
        if str_of(at(i, "file_path"@)) is Some {
            assert(names_path(call@, str_of(at(i, "file_path"@))->0));
        }
        if str_of(at(i, "filePath"@)) is Some {
            assert(names_path(call@, str_of(at(i, "filePath"@))->0));
        }
        if str_of(at(i, "notebook_path"@)) is Some {
            assert(names_path(call@, str_of(at(i, "notebook_path"@))->0));
        }
        if str_of(at(i, "path"@)) is Some {
            assert(names_path(call@, str_of(at(i, "path"@))->0));
        }
        if touches(call@, cwd@, p) {
            let path = choose|path: Seq<char>| #[trigger]
                names_path(call@, path) && p == resolved(cwd@, path);
            if exists|k: int|
                0 <= k < n && str_of(at(#[trigger] locations[k], "path"@)) == Some(path) {
                let k = choose|k: int|
                    0 <= k < n && str_of(at(#[trigger] locations[k], "path"@)) == Some(path);
                assert(str_of(at(locations[k], "path"@)) is Some);
                assert(located(locations, n, cwd@, p));
            }
        }
    }
    r
}

impl Request {
    /// From the params of a `session/request_permission` request; relative
    /// paths are taken relative to CWD.
    pub fn from_params(params: &Json, cwd: &str) -> (r: Request)
        ensures
            is_request(r@, params@, cwd@),
    {
        let call = params.at("toolCall");
        let command: Option<String> = match call.at("rawInput").at("command") {
            Json::Str(s) => Some(s.clone()),
            Json::Array(a) => {
                proof {
                    crate::json::lemma_array_view(*a);
                }
                Some(join(&words(a), " "))
            },
            _ => None,
        };
        Request {
            kind: call.at("kind").str_or("other").to_owned(),
            title: call.at("title").str_or("").to_owned(),
            command,
            paths: call_paths(call, cwd),
        }
    }
}

// ---- Answering ---------------------------------------------------------

/// The id of the first of OPTIONS of this kind.
pub open spec fn option_of(options: Seq<JsonView>, kind: Seq<char>) -> Option<Seq<char>>
    decreases options.len(),
{
    if options.len() == 0 {
        None
    } else if str_of(at(options[0], "kind"@)) == Some(kind) {
        str_of(at(options[0], "optionId"@))
    } else {
        option_of(options.skip(1), kind)
    }
}

/// The option to select among a request's OPTIONS, and the decision it
/// carries out.
pub open spec fn picked(options: JsonView, decision: Decision) -> Option<(Seq<char>, Decision)> {
    let list = items_of(options);
    let allow = option_of(list, "allow_once"@);
    let once = option_of(list, "reject_once"@);
    let always = option_of(list, "reject_always"@);
    if decision == Decision::Allow && allow is Some {
        Some((allow->0, Decision::Allow))
    } else if once is Some {
        Some((once->0, Decision::Deny))
    } else if always is Some {
        Some((always->0, Decision::Deny))
    } else {
        None
    }
}

fn find_option(options: &Vec<Json>, kind: &str) -> (r: Option<String>)
    ensures
        opt_view(r) == option_of(json_views(options@), kind@),
{
    let ghost all = json_views(options@);
    let mut i: usize = 0;
    assert(all.skip(0) =~= all);
    while i < options.len()
        invariant
            i <= options@.len(),
            all == json_views(options@),
            option_of(all, kind@) == option_of(all.skip(i as int), kind@),
        decreases options@.len() - i,
    {
        assert(all.skip(i as int)[0] == options@[i as int]@);
        if let Some(k) = options[i].at("kind").as_str() {
            if same(k, kind) {
                return own_opt(options[i].at("optionId").as_str());
            }
        }
        assert(all.skip(i as int).skip(1) =~= all.skip(i + 1));
        i += 1;
    }
    None
}

/// The option to select for DECISION among a request's `options`, and
/// the decision it carries out. An allow takes only "allow once", so
/// every call is decided (and recorded) on its own: without one, the
/// call is rejected. None: no option fits, and the request is cancelled.
pub fn pick_option(options: &Json, decision: Decision) -> (r: Option<(String, Decision)>)
    ensures
        match r {
            Some((id, d)) => picked(options@, decision) == Some((id@, d)),
            None => picked(options@, decision) is None,
        },
{
    match options.as_array() {
        None => None,
        Some(list) => {
            if decision == Decision::Allow {
                if let Some(id) = find_option(list, "allow_once") {
                    return Some((id, Decision::Allow));
                }
            }
            if let Some(id) = find_option(list, "reject_once") {
                return Some((id, Decision::Deny));
            }
            match find_option(list, "reject_always") {
                Some(id) => Some((id, Decision::Deny)),
                None => None,
            }
        },
    }
}

// ---- What holds of every policy ----------------------------------------

/// A request is allowed by carrying out an allow only: what a denied
/// request is answered never allows it.
pub proof fn law_deny_is_never_allowed(options: JsonView)
    ensures
        match picked(options, Decision::Deny) {
            Some((_, d)) => d == Decision::Deny,
            None => true,
        },
{
}

/// Only an option of the kind "allow once" carries out an allow.
pub proof fn law_allow_is_once(options: JsonView, decision: Decision)
    ensures
        match picked(options, decision) {
            Some((id, Decision::Allow)) => exists|i: int|
                0 <= i < items_of(options).len() && str_of(
                    at(#[trigger] items_of(options)[i], "kind"@),
                ) == Some("allow_once"@) && str_of(at(items_of(options)[i], "optionId"@)) == Some(
                    id,
                ),
            _ => true,
        },
{
    lemma_option_is_offered(items_of(options), "allow_once"@);
}

/// An agent that offers no "allow once" gets what it gets for a denial.
pub proof fn law_without_allow_once_is_denied(options: JsonView)
    requires
        option_of(items_of(options), "allow_once"@) is None,
    ensures
        picked(options, Decision::Allow) == picked(options, Decision::Deny),
{
}

/// What is picked is one of the options that the agent offers.
pub proof fn law_picked_is_offered(options: JsonView, decision: Decision)
    ensures
        match picked(options, decision) {
            Some((id, _)) => exists|i: int|
                0 <= i < items_of(options).len() && str_of(
                    at(#[trigger] items_of(options)[i], "optionId"@),
                ) == Some(id),
            None => true,
        },
{
    lemma_option_is_offered(items_of(options), "allow_once"@);
    lemma_option_is_offered(items_of(options), "reject_once"@);
    lemma_option_is_offered(items_of(options), "reject_always"@);
}

pub proof fn lemma_option_is_offered(options: Seq<JsonView>, kind: Seq<char>)
    ensures
        option_of(options, kind) is Some ==> exists|i: int|
            0 <= i < options.len() && str_of(at(#[trigger] options[i], "kind"@)) == Some(kind)
                && str_of(at(options[i], "optionId"@)) == option_of(options, kind),
    decreases options.len(),
{
    if options.len() > 0 && str_of(at(options[0], "kind"@)) != Some(kind) {
        let rest = options.skip(1);
        lemma_option_is_offered(rest, kind);
        if option_of(rest, kind) is Some {
            let i = choose|i: int|
                0 <= i < rest.len() && str_of(at(#[trigger] rest[i], "kind"@)) == Some(kind)
                    && str_of(at(rest[i], "optionId"@)) == option_of(rest, kind);
            assert(options[i + 1] == rest[i]);
        }
    }
}

/// The first rule that matches decides: rule I, where it matches and none
/// before it does.
pub proof fn law_first_match_decides(policy: PolicyView, req: RequestView, i: int)
    requires
        0 <= i < policy.rules.len(),
        rule_matches(policy.rules[i], req),
        forall|k: int| 0 <= k < i ==> !rule_matches(#[trigger] policy.rules[k], req),
    ensures
        decided(policy, req) == (VerdictView {
            decision: policy.rules[i].decision,
            rule: Some(policy.rules[i].name),
        }),
    decreases i,
{
    if i > 0 {
        assert(!rule_matches(policy.rules[0], req));
        let rest = PolicyView { default: policy.default, rules: policy.rules.skip(1) };
        assert(rest.rules[i - 1] == policy.rules[i]);
        assert forall|k: int| 0 <= k < i - 1 implies !rule_matches(
            #[trigger] rest.rules[k],
            req,
        ) by {
            assert(rest.rules[k] == policy.rules[k + 1]);
        }
        law_first_match_decides(rest, req, i - 1);
    }
}

/// Where no rule matches, the default decides.
pub proof fn law_default_decides(policy: PolicyView, req: RequestView)
    requires
        forall|k: int|
            0 <= k < policy.rules.len() ==> !rule_matches(#[trigger] policy.rules[k], req),
    ensures
        decided(policy, req) == (VerdictView { decision: policy.default, rule: None }),
    decreases policy.rules.len(),
{
    if policy.rules.len() > 0 {
        assert(!rule_matches(policy.rules[0], req));
        let rest = PolicyView { default: policy.default, rules: policy.rules.skip(1) };
        assert forall|k: int| 0 <= k < rest.rules.len() implies !rule_matches(
            #[trigger] rest.rules[k],
            req,
        ) by {
            assert(rest.rules[k] == policy.rules[k + 1]);
        }
        law_default_decides(rest, req);
    }
}

/// A rule with `paths` never matches a call that names no paths, and one
/// that only sets `outside` always does.
pub proof fn law_calls_without_paths(rule: RuleView, req: RequestView)
    requires
        req.paths.len() == 0,
    ensures
        rule.paths.len() > 0 ==> !rule_matches(rule, req),
        rule.kinds.len() == 0 && rule.command is None && rule.paths.len() == 0 ==> rule_matches(
            rule,
            req,
        ),
{
}

/// A rule with a `command` matches `execute` calls only.
pub proof fn law_commands_are_executed(rule: RuleView, req: RequestView)
    ensures
        rule.command is Some && rule_matches(rule, req) ==> req.kind == "execute"@ && req.command
            is Some,
{
}

/// Every path of a request is absolute and lexically normalized.
pub proof fn law_request_paths_are_plain(
    req: RequestView,
    params: JsonView,
    cwd: Seq<char>,
    i: int,
)
    requires
        is_request(req, params, cwd),
        is_absolute_text(cwd),
        0 <= i < req.paths.len(),
    ensures
        req.paths[i].absolute,
        all_plain(req.paths[i].names),
{
    let call = at(params, "toolCall"@);
    assert(req.paths.contains(req.paths[i]));
    let path = choose|path: Seq<char>| #[trigger]
        names_path(call, path) && req.paths[i] == resolved(cwd, path);
    law_resolved_is_absolute(cwd, path);
}

proof fn lemma_same_ascending(a: Seq<PathView>, b: Seq<PathView>)
    requires
        ascending(a),
        ascending(b),
        forall|p: PathView| #[trigger] a.contains(p) <==> b.contains(p),
    ensures
        a == b,
    decreases a.len(),
{
    if a.len() == 0 {
        if b.len() > 0 {
            assert(b.contains(b[0]));
            assert(a.contains(b[0]));
        }
        assert(a =~= b);
    } else {
        assert(a.contains(a.last()));
        assert(b.contains(a.last()));
        assert(b.len() > 0);
        assert(b.contains(b.last()));
        assert(a.contains(b.last()));
        let i = choose|i: int| 0 <= i < b.len() && b[i] == a.last();
        let j = choose|j: int| 0 <= j < a.len() && a[j] == b.last();
        law_paths_are_ordered(a.last(), b.last(), a.last());
        law_paths_are_ordered(b.last(), a.last(), b.last());
        if i < b.len() - 1 {
            assert(path_lt(b[i], b[b.len() - 1]));
            if j < a.len() - 1 {
                assert(path_lt(a[j], a[a.len() - 1]));
            }
        }
        assert(a.last() == b.last());
        let x = a.drop_last();
        let y = b.drop_last();
        assert forall|p: PathView| #[trigger] x.contains(p) <==> y.contains(p) by {
            law_paths_are_ordered(p, p, p);
            if x.contains(p) {
                let k = choose|k: int| 0 <= k < x.len() && x[k] == p;
                assert(a[k] == p);
                assert(path_lt(a[k], a[a.len() - 1]));
                assert(a.contains(p));
                assert(b.contains(p));
                let m = choose|m: int| 0 <= m < b.len() && b[m] == p;
                assert(y[m] == p);
            }
            if y.contains(p) {
                let k = choose|k: int| 0 <= k < y.len() && y[k] == p;
                assert(b[k] == p);
                assert(path_lt(b[k], b[b.len() - 1]));
                assert(b.contains(p));
                assert(a.contains(p));
                let m = choose|m: int| 0 <= m < a.len() && a[m] == p;
                assert(x[m] == p);
            }
        }
        lemma_same_ascending(x, y);
        assert(a =~= x.push(a.last()));
        assert(b =~= y.push(b.last()));
    }
}

/// The params of a permission request ask for one thing.
pub proof fn law_request_is_one(
    a: RequestView,
    b: RequestView,
    params: JsonView,
    cwd: Seq<char>,
)
    requires
        is_request(a, params, cwd),
        is_request(b, params, cwd),
    ensures
        a == b,
{
    let call = at(params, "toolCall"@);
    assert forall|p: PathView| #[trigger] a.paths.contains(p) <==> b.paths.contains(p) by {
        assert(a.paths.contains(p) <==> touches(call, cwd, p));
        assert(b.paths.contains(p) <==> touches(call, cwd, p));
    }
    lemma_same_ascending(a.paths, b.paths);
}

// ---- What policies say -------------------------------------------------

/// A rule with a command matches by the whole command of an `execute` call:
/// where the call's command is the text C, the request holds C itself, and a
/// rule whose other conditions hold decides just where its regex matches C.
pub proof fn law_commands_are_matched_whole(
    policy: PolicyView,
    req: RequestView,
    params: JsonView,
    cwd: Seq<char>,
    command: Seq<char>,
    pattern: Seq<char>,
)
    requires
        is_request(req, params, cwd),
        at(at(at(params, "toolCall"@), "rawInput"@), "command"@) == JsonView::Str(command),
        at(at(params, "toolCall"@), "kind"@) == JsonView::Str("execute"@),
        policy.rules.len() > 0,
        policy.rules[0].command == Some(pattern),
        policy.rules[0].kinds.len() == 0 || policy.rules[0].kinds.contains("execute"@),
        policy.rules[0].paths.len() == 0,
        policy.rules[0].outside.len() == 0,
    ensures
        req.command == Some(command),
        regex_match(pattern, command) == Some(true) ==> decided(policy, req) == (VerdictView {
            decision: policy.rules[0].decision,
            rule: Some(policy.rules[0].name),
        }),
        regex_match(pattern, command) != Some(true) ==> decided(policy, req) == decided(
            PolicyView { default: policy.default, rules: policy.rules.skip(1) },
            req,
        ),
{
}

/// A command that is a list is its words with a blank between each two, a
/// word that is no text as it is written in JSON; anything else is no
/// command.
pub proof fn law_command_lists_are_joined(
    req: RequestView,
    params: JsonView,
    cwd: Seq<char>,
    words: Seq<Seq<char>>,
)
    requires
        is_request(req, params, cwd),
    ensures
        ({
            let command = at(at(at(params, "toolCall"@), "rawInput"@), "command"@);
            &&& command is Array && command->Array_0.len() == words.len() && (forall|i: int|
                0 <= i < words.len() ==> (#[trigger] command->Array_0[i]) == JsonView::Str(words[i])
                    || !(command->Array_0[i] is Str) && words[i] == json_text(
                    command->Array_0[i],
                )) ==> req.command == Some(joined(words, " "@))
            &&& !(command is Array) && !(command is Str) ==> req.command is None
        }),
{
    let command = at(at(at(params, "toolCall"@), "rawInput"@), "command"@);
    if command is Array && command->Array_0.len() == words.len() && (forall|i: int|
        0 <= i < words.len() ==> (#[trigger] command->Array_0[i]) == JsonView::Str(words[i]) || !(
        command->Array_0[i] is Str) && words[i] == json_text(command->Array_0[i])) {
        let a = command->Array_0;
        assert(Seq::new(a.len(), |i: int| word(a[i])) =~= words) by {
            assert forall|i: int| 0 <= i < words.len() implies word(a[i]) == words[i] by {
                assert(a[i] == JsonView::Str(words[i]) || !(a[i] is Str) && words[i] == json_text(
                    a[i],
                ));
            }
        }
    }
}

/// A request is of the kind that its call says, else of the kind `other`;
/// it has the call's title.
pub proof fn law_requests_have_a_kind(req: RequestView, params: JsonView, cwd: Seq<char>)
    requires
        is_request(req, params, cwd),
    ensures
        ({
            let call = at(params, "toolCall"@);
            let kind = str_of(at(call, "kind"@));
            let title = str_of(at(call, "title"@));
            &&& kind is Some ==> req.kind == kind->0
            &&& kind is None ==> req.kind == "other"@
            &&& title is Some ==> req.title == title->0
            &&& title is None ==> req.title.len() == 0
        }),
{
    reveal_strlit("");
}

/// Every path that a call names counts: those of its locations, and those
/// under each of the input's path keys, taken from the working directory. No
/// other path does.
pub proof fn law_named_paths_count(
    req: RequestView,
    params: JsonView,
    cwd: Seq<char>,
    path: Seq<char>,
    i: int,
)
    requires
        is_request(req, params, cwd),
    ensures
        ({
            let call = at(params, "toolCall"@);
            let input = at(call, "rawInput"@);
            let locations = items_of(at(call, "locations"@));
            let p = resolved(cwd, path);
            &&& 0 <= i < locations.len() && str_of(at(locations[i], "path"@)) == Some(path)
                ==> req.paths.contains(p)
            &&& str_of(at(input, "file_path"@)) == Some(path) ==> req.paths.contains(p)
            &&& str_of(at(input, "filePath"@)) == Some(path) ==> req.paths.contains(p)
            &&& str_of(at(input, "notebook_path"@)) == Some(path) ==> req.paths.contains(p)
            &&& str_of(at(input, "path"@)) == Some(path) ==> req.paths.contains(p)
            &&& locations.len() == 0 && str_of(at(input, "file_path"@)) is None && str_of(
                at(input, "filePath"@),
            ) is None && str_of(at(input, "notebook_path"@)) is None && str_of(
                at(input, "path"@),
            ) is None ==> req.paths.len() == 0
        }),
{
    let call = at(params, "toolCall"@);
    let input = at(call, "rawInput"@);
    let locations = items_of(at(call, "locations"@));
    if names_path(call, path) {
        assert(touches(call, cwd, resolved(cwd, path)));
    }
    if locations.len() == 0 && str_of(at(input, "file_path"@)) is None && str_of(
        at(input, "filePath"@),
    ) is None && str_of(at(input, "notebook_path"@)) is None && str_of(at(input, "path"@)) is None
        && req.paths.len() > 0 {
        assert(req.paths.contains(req.paths[0]));
        assert(touches(call, cwd, req.paths[0]));
    }
}

/// A rule matches just where every condition that it sets holds: the kind is
/// one of those listed; the regex matches the command of an `execute` call;
/// some path is at or under one of `paths`; some path is under none of
/// `outside`, or there is no path at all.
pub proof fn law_every_condition_counts(rule: RuleView, req: RequestView)
    ensures
        ({
            let kind = rule.kinds.len() == 0 || exists|i: int|
                0 <= i < rule.kinds.len() && #[trigger] rule.kinds[i] == req.kind;
            let command = rule.command is None || (req.kind == "execute"@ && req.command is Some
                && regex_match(rule.command->0, req.command->0) == Some(true));
            let paths = rule.paths.len() == 0 || exists|i: int, j: int|
                0 <= i < req.paths.len() && 0 <= j < rule.paths.len() && is_under(
                    #[trigger] req.paths[i],
                    #[trigger] rule.paths[j],
                );
            let outside = rule.outside.len() == 0 || req.paths.len() == 0 || exists|i: int|
                0 <= i < req.paths.len() && forall|j: int|
                    0 <= j < rule.outside.len() ==> !is_under(
                        #[trigger] req.paths[i],
                        #[trigger] rule.outside[j],
                    );
            rule_matches(rule, req) <==> kind && command && paths && outside
        }),
{
    if rule.kinds.contains(req.kind) {
        let i = choose|i: int| 0 <= i < rule.kinds.len() && rule.kinds[i] == req.kind;
        assert(rule.kinds[i] == req.kind);
    }
    if exists|i: int, j: int|
        0 <= i < req.paths.len() && 0 <= j < rule.paths.len() && is_under(
            #[trigger] req.paths[i],
            #[trigger] rule.paths[j],
        ) {
        let (i, j) = choose|i: int, j: int|
            0 <= i < req.paths.len() && 0 <= j < rule.paths.len() && is_under(
                #[trigger] req.paths[i],
                #[trigger] rule.paths[j],
            );
        assert(is_under_any(req.paths[i], rule.paths));
    }
    if paths_hold(rule, req) && rule.paths.len() > 0 {
        let i = choose|i: int|
            0 <= i < req.paths.len() && is_under_any(#[trigger] req.paths[i], rule.paths);
        let j = choose|j: int|
            0 <= j < rule.paths.len() && is_under(req.paths[i], #[trigger] rule.paths[j]);
        assert(is_under(req.paths[i], rule.paths[j]));
    }
    if outside_holds(rule, req) && rule.outside.len() > 0 && req.paths.len() > 0 {
        let i = choose|i: int|
            0 <= i < req.paths.len() && !is_under_any(#[trigger] req.paths[i], rule.outside);
        assert forall|j: int| 0 <= j < rule.outside.len() implies !is_under(
            req.paths[i],
            #[trigger] rule.outside[j],
        ) by {}
        assert(0 <= i < req.paths.len() && forall|j: int|
            0 <= j < rule.outside.len() ==> !is_under(
                req.paths[i],
                #[trigger] rule.outside[j],
            ));
    }
    if exists|i: int|
        0 <= i < req.paths.len() && forall|j: int|
            0 <= j < rule.outside.len() ==> !is_under(
                #[trigger] req.paths[i],
                #[trigger] rule.outside[j],
            ) {
        let i = choose|i: int|
            0 <= i < req.paths.len() && forall|j: int|
                0 <= j < rule.outside.len() ==> !is_under(
                    #[trigger] req.paths[i],
                    #[trigger] rule.outside[j],
                );
        assert(!is_under_any(req.paths[i], rule.outside));
    }
}

/// The kinds of tool calls are those of ACP v1.
pub proof fn law_kinds_are_those_of_acp(kind: Seq<char>)
    ensures
        is_kind("read"@) && is_kind("edit"@) && is_kind("delete"@) && is_kind("move"@),
        is_kind("search"@) && is_kind("execute"@) && is_kind("think"@) && is_kind("fetch"@),
        is_kind("switch_mode"@) && is_kind("other"@),
        is_kind(kind) ==> ["read"@, "edit"@, "delete"@, "move"@, "search"@, "execute"@, "think"@,
            "fetch"@, "switch_mode"@, "other"@]@.contains(kind),
{
    let all = ["read"@, "edit"@, "delete"@, "move"@, "search"@, "execute"@, "think"@, "fetch"@,
        "switch_mode"@, "other"@]@;
    assert(all[0] == "read"@ && all[1] == "edit"@ && all[2] == "delete"@ && all[3] == "move"@
        && all[4] == "search"@ && all[5] == "execute"@ && all[6] == "think"@ && all[7] == "fetch"@
        && all[8] == "switch_mode"@ && all[9] == "other"@);
}

proof fn lemma_first_unknown(kinds: Seq<Seq<char>>, i: int)
    requires
        0 <= i <= kinds.len(),
        i < kinds.len() ==> !is_kind(kinds[i]),
        forall|k: int| 0 <= k < i ==> is_kind(#[trigger] kinds[k]),
    ensures
        first_unknown(kinds) == if i < kinds.len() {
            Some(kinds[i])
        } else {
            None
        },
    decreases i,
{
    if i > 0 {
        assert(is_kind(kinds[0]));
        let rest = kinds.skip(1);
        assert forall|k: int| 0 <= k < i - 1 implies is_kind(#[trigger] rest[k]) by {
            assert(rest[k] == kinds[k + 1]);
        }
        if i < kinds.len() {
            assert(rest[i - 1] == kinds[i]);
        }
        lemma_first_unknown(rest, i - 1);
    }
}

proof fn lemma_first_relative(paths: Seq<Seq<char>>, i: int)
    requires
        0 <= i <= paths.len(),
        i < paths.len() ==> paths[i].len() == 0 || paths[i][0] != '/',
        forall|k: int|
            0 <= k < i ==> (#[trigger] paths[k]).len() > 0 && paths[k][0] == '/',
    ensures
        first_relative(paths) == if i < paths.len() {
            Some(paths[i])
        } else {
            None
        },
    decreases i,
{
    if i > 0 {
        assert(paths[0].len() > 0 && paths[0][0] == '/');
        let rest = paths.skip(1);
        assert forall|k: int| 0 <= k < i - 1 implies (#[trigger] rest[k]).len() > 0 && rest[k][0]
            == '/' by {
            assert(rest[k] == paths[k + 1]);
        }
        if i < paths.len() {
            assert(rest[i - 1] == paths[i]);
        }
        lemma_first_relative(rest, i - 1);
    }
}

/// A rule of a policy file with known kinds, absolute paths and a regex that
/// compiles stands as it is written, with its paths resolved.
pub proof fn law_good_rules_stand(r: RuleFileView, i: int)
    requires
        forall|k: int| 0 <= k < r.kind.len() ==> is_kind(#[trigger] r.kind[k]),
        forall|k: int|
            0 <= k < r.paths.len() ==> (#[trigger] r.paths[k]).len() > 0 && r.paths[k][0] == '/',
        forall|k: int|
            0 <= k < r.outside.len() ==> (#[trigger] r.outside[k]).len() > 0 && r.outside[k][0]
                == '/',
        r.command is Some ==> regex_refusal(r.command->0) is None,
    ensures
        rule_of(r) is Ok,
        ({
            let rule = rule_of(r)->Ok_0;
            &&& rule.name == r.name
            &&& rule.decision == r.decision
            &&& rule.kinds == r.kind
            &&& rule.command == r.command
            &&& rule.paths.len() == r.paths.len()
            &&& rule.outside.len() == r.outside.len()
            &&& 0 <= i < r.paths.len() ==> rule.paths[i] == normalized(r.paths[i])
            &&& 0 <= i < r.outside.len() ==> rule.outside[i] == normalized(r.outside[i])
        }),
{
    lemma_first_unknown(r.kind, r.kind.len() as int);
    lemma_first_relative(r.paths, r.paths.len() as int);
    lemma_first_relative(r.outside, r.outside.len() as int);
}

/// A rule with an unknown kind, a path that is not absolute or a regex that
/// does not compile is refused: the first of these in this order is told,
/// with the rule's name.
pub proof fn law_bad_rules_are_refused(r: RuleFileView, i: int)
    ensures
        0 <= i < r.kind.len() && !is_kind(r.kind[i]) && (forall|k: int|
            0 <= k < i ==> is_kind(#[trigger] r.kind[k])) ==> rule_of(r) == Err::<
            RuleView,
            PolicyErrorView,
        >(PolicyErrorView::UnknownKind(r.name, r.kind[i])),
        (forall|k: int| 0 <= k < r.kind.len() ==> is_kind(#[trigger] r.kind[k])) && 0 <= i
            < r.paths.len() && (r.paths[i].len() == 0 || r.paths[i][0] != '/') && (forall|k: int|
            0 <= k < i ==> (#[trigger] r.paths[k]).len() > 0 && r.paths[k][0] == '/') ==> rule_of(r)
            == Err::<RuleView, PolicyErrorView>(
            PolicyErrorView::NotAbsolute(r.name, r.paths[i]),
        ),
        rule_of(r) is Ok ==> (forall|k: int|
            0 <= k < r.outside.len() ==> is_absolute_text(#[trigger] r.outside[k])) && (r.command
            is Some ==> regex_refusal(r.command->0) is None),
        rule_of(r) matches Err(PolicyErrorView::BadRegex(name, why)) ==> name == r.name && r.command
            is Some && regex_refusal(r.command->0) == Some(why),
{
    if 0 <= i < r.kind.len() && !is_kind(r.kind[i]) && (forall|k: int|
        0 <= k < i ==> is_kind(#[trigger] r.kind[k])) {
        lemma_first_unknown(r.kind, i);
    }
    if (forall|k: int| 0 <= k < r.kind.len() ==> is_kind(#[trigger] r.kind[k])) {
        lemma_first_unknown(r.kind, r.kind.len() as int);
        if 0 <= i < r.paths.len() && (r.paths[i].len() == 0 || r.paths[i][0] != '/') && (forall|
            k: int,
        |
            0 <= k < i ==> (#[trigger] r.paths[k]).len() > 0 && r.paths[k][0] == '/') {
            lemma_first_relative(r.paths, i);
        }
    }
    if rule_of(r) is Ok {
        lemma_no_relative(r.outside);
    }
}

proof fn lemma_no_relative(paths: Seq<Seq<char>>)
    requires
        first_relative(paths) is None,
    ensures
        forall|k: int| 0 <= k < paths.len() ==> is_absolute_text(#[trigger] paths[k]),
    decreases paths.len(),
{
    if paths.len() > 0 {
        let rest = paths.skip(1);
        lemma_no_relative(rest);
        assert forall|k: int| 0 <= k < paths.len() implies is_absolute_text(
            #[trigger] paths[k],
        ) by {
            if k > 0 {
                assert(rest[k - 1] == paths[k]);
            }
        }
    }
}

/// A policy file whose rules all stand has them in its order; one bad rule is
/// enough for it to be refused, with what is wrong with the first.
pub proof fn law_policies_keep_their_rules(rules: Seq<RuleFileView>, i: int)
    ensures
        rules_of(rules) is Ok ==> rules_of(rules)->Ok_0.len() == rules.len(),
        rules_of(rules) is Ok && 0 <= i < rules.len() ==> rule_of(rules[i]) == Ok::<
            RuleView,
            PolicyErrorView,
        >(rules_of(rules)->Ok_0[i]),
        (forall|k: int| 0 <= k < rules.len() ==> rule_of(#[trigger] rules[k]) is Ok) ==> rules_of(
            rules,
        ) is Ok,
        0 <= i < rules.len() && rule_of(rules[i]) is Err && (forall|k: int|
            0 <= k < i ==> rule_of(#[trigger] rules[k]) is Ok) ==> rules_of(rules) == Err::<
            Seq<RuleView>,
            PolicyErrorView,
        >(rule_of(rules[i])->Err_0),
    decreases rules.len(),
{
    if rules.len() > 0 {
        let before = rules.drop_last();
        law_policies_keep_their_rules(before, i);
        if 0 <= i < before.len() {
            assert(before[i] == rules[i]);
        }
        if forall|k: int| 0 <= k < rules.len() ==> rule_of(#[trigger] rules[k]) is Ok {
            assert forall|k: int| 0 <= k < before.len() implies rule_of(
                #[trigger] before[k],
            ) is Ok by {
                assert(rule_of(rules[k]) is Ok);
            }
            assert(rule_of(rules[rules.len() - 1]) is Ok);
        }
        if 0 <= i < rules.len() && rule_of(rules[i]) is Err && (forall|k: int|
            0 <= k < i ==> rule_of(#[trigger] rules[k]) is Ok) {
            assert forall|k: int| 0 <= k < before.len() && k < i implies rule_of(
                #[trigger] before[k],
            ) is Ok by {
                assert(rule_of(rules[k]) is Ok);
            }
            if i == rules.len() - 1 {
                assert(forall|k: int|
                    0 <= k < before.len() ==> rule_of(#[trigger] before[k]) is Ok);
            }
        }
    }
}

proof fn lemma_option_of(options: Seq<JsonView>, kind: Seq<char>, i: int)
    requires
        0 <= i <= options.len(),
        i < options.len() ==> str_of(at(options[i], "kind"@)) == Some(kind),
        forall|k: int| 0 <= k < i ==> str_of(at(#[trigger] options[k], "kind"@)) != Some(kind),
    ensures
        option_of(options, kind) == if i < options.len() {
            str_of(at(options[i], "optionId"@))
        } else {
            None
        },
    decreases i,
{
    if i > 0 {
        assert(str_of(at(options[0], "kind"@)) != Some(kind));
        let rest = options.skip(1);
        assert forall|k: int| 0 <= k < i - 1 implies str_of(at(#[trigger] rest[k], "kind"@))
            != Some(kind) by {
            assert(rest[k] == options[k + 1]);
        }
        if i < options.len() {
            assert(rest[i - 1] == options[i]);
        }
        lemma_option_of(rest, kind, i - 1);
    }
}

/// No option of a list is of this kind.
pub open spec fn offers_none(options: Seq<JsonView>, kind: Seq<char>) -> bool {
    forall|k: int|
        0 <= k < options.len() ==> str_of(at(#[trigger] options[k], "kind"@)) != Some(kind)
}

/// Option I is the first of this kind, with this id.
pub open spec fn offers_first(
    options: Seq<JsonView>,
    kind: Seq<char>,
    i: int,
    id: Seq<char>,
) -> bool {
    &&& 0 <= i < options.len()
    &&& str_of(at(options[i], "kind"@)) == Some(kind)
    &&& str_of(at(options[i], "optionId"@)) == Some(id)
    &&& forall|k: int| 0 <= k < i ==> str_of(at(#[trigger] options[k], "kind"@)) != Some(kind)
}

/// An allow selects the first option of the kind `allow_once`. A denial, and
/// an allow without such an option, selects the first of the kind
/// `reject_once`, else of the kind `reject_always`; with neither, nothing is
/// selected.
pub proof fn law_options_are_picked_by_kind(
    options: Seq<JsonView>,
    decision: Decision,
    i: int,
    id: Seq<char>,
)
    ensures
        ({
            let pick = picked(JsonView::Array(options), decision);
            let denies = decision == Decision::Deny || offers_none(options, "allow_once"@);
            &&& decision == Decision::Allow && offers_first(options, "allow_once"@, i, id) ==> pick
                == Some((id, Decision::Allow))
            &&& denies && offers_first(options, "reject_once"@, i, id) ==> pick == Some(
                (id, Decision::Deny),
            )
            &&& denies && offers_none(options, "reject_once"@) && offers_first(
                options,
                "reject_always"@,
                i,
                id,
            ) ==> pick == Some((id, Decision::Deny))
            &&& denies && offers_none(options, "reject_once"@) && offers_none(
                options,
                "reject_always"@,
            ) ==> pick is None
        }),
{
    let n = options.len() as int;
    if offers_none(options, "allow_once"@) {
        lemma_option_of(options, "allow_once"@, n);
    }
    if offers_none(options, "reject_once"@) {
        lemma_option_of(options, "reject_once"@, n);
    }
    if offers_none(options, "reject_always"@) {
        lemma_option_of(options, "reject_always"@, n);
    }
    if offers_first(options, "allow_once"@, i, id) {
        lemma_option_of(options, "allow_once"@, i);
    }
    if offers_first(options, "reject_once"@, i, id) {
        lemma_option_of(options, "reject_once"@, i);
    }
    if offers_first(options, "reject_always"@, i, id) {
        lemma_option_of(options, "reject_always"@, i);
    }
}

/// Decisions are called `allow` and `deny`.
pub proof fn law_decisions_have_names()
    ensures
        decision_text(Decision::Allow) == "allow"@,
        decision_text(Decision::Deny) == "deny"@,
{
}

} // verus!
