//! The registry of ACP agents (`agents.toml`): how to start each one's ACP
//! server on stdio, and how to tell it the model.
//!
//! ```toml
//! [goose]
//! command = ["goose-agent-acp"]
//! model-env = "GOOSE_MODEL"
//!
//! [opencode]
//! command = ["opencode", "acp"]
//! ```
//!
//! An agent without `model-env` gets its model through its `model`
//! session config option (ACP's `session/set_config_option`).

use crate::table::{placed, value_of, Sorted};
use crate::text::{
    chars_of, copy_all, copy_opt, is_alpha, is_alpha_char, is_digit, is_digit_char, join, joined,
};
use crate::views::{lemma_views_add, opt_str, opt_view, views, views_empty, views_push};
use vstd::prelude::*;

verus! {

broadcast use {views_push, views_empty};

#[derive(Debug)]
pub struct AgentSpec {
    pub command: Vec<String>,
    /// Environment variables for the agent; never secrets, which behind a
    /// wrapper would be on the command line.
    pub env: Sorted<String>,
    /// The environment variable that selects the agent's model.
    pub model_env: Option<String>,
}

/// What an entry of the registry holds.
#[verifier::ext_equal]
pub struct AgentView {
    pub command: Seq<Seq<char>>,
    pub env: Seq<(Seq<char>, Seq<char>)>,
    pub model_env: Option<Seq<char>>,
}

impl View for AgentSpec {
    type V = AgentView;

    open spec fn view(&self) -> AgentView {
        AgentView {
            command: views(self.command@),
            env: self.env@,
            model_env: opt_view(self.model_env),
        }
    }
}

/// What is wrong with the entry of an agent.
#[derive(Debug)]
pub enum AgentError {
    /// No entry of this name; the names there are.
    Unknown(String, Vec<String>),
    /// Its command is empty.
    NoCommand(String),
    /// It sets a variable whose name no environment takes.
    BadVariable(String, String),
}

/// What an error says.
pub enum AgentErrorView {
    Unknown(Seq<char>, Seq<Seq<char>>),
    NoCommand(Seq<char>),
    BadVariable(Seq<char>, Seq<char>),
}

impl View for AgentError {
    type V = AgentErrorView;

    open spec fn view(&self) -> AgentErrorView {
        match self {
            AgentError::Unknown(name, known) => AgentErrorView::Unknown(name@, views(known@)),
            AgentError::NoCommand(name) => AgentErrorView::NoCommand(name@),
            AgentError::BadVariable(name, var) => AgentErrorView::BadVariable(name@, var@),
        }
    }
}

/// An error in words.
pub open spec fn agent_error_text(e: AgentErrorView) -> Seq<char> {
    match e {
        AgentErrorView::Unknown(name, known) => "no agent '"@ + name + "' (known: "@ + joined(
            known,
            ", "@,
        ) + ")"@,
        AgentErrorView::NoCommand(name) => "agent '"@ + name + "' has an empty command"@,
        AgentErrorView::BadVariable(name, var) => "agent '"@ + name + "': '"@ + var
            + "' is not a valid environment variable name"@,
    }
}

impl AgentError {
    /// The error in words.
    pub fn message(&self) -> (r: String)
        ensures
            r@ == agent_error_text(self@),
    {
        match self {
            AgentError::Unknown(name, known) => {
                let mut s = "no agent '".to_owned();
                s.append(name.as_str());
                s.append("' (known: ");
                s.append(join(known, ", ").as_str());
                s.append(")");
                s
            },
            AgentError::NoCommand(name) => {
                let mut s = "agent '".to_owned();
                s.append(name.as_str());
                s.append("' has an empty command");
                s
            },
            AgentError::BadVariable(name, var) => {
                let mut s = "agent '".to_owned();
                s.append(name.as_str());
                s.append("': '");
                s.append(var.as_str());
                s.append("' is not a valid environment variable name");
                s
            },
        }
    }
}

// ---- Reading the registry ----------------------------------------------

/// A letter or an underscore.
pub open spec fn starts_name(c: char) -> bool {
    is_alpha_char(c) || c == '_'
}

/// A letter or an underscore, then letters, digits and underscores.
pub open spec fn is_env_name(name: Seq<char>) -> bool {
    name.len() > 0 && starts_name(name[0]) && forall|i: int|
        0 < i < name.len() ==> starts_name(#[trigger] name[i]) || is_digit_char(name[i])
}

pub fn valid_env_name(name: &str) -> (r: bool)
    ensures
        r == is_env_name(name@),
{
    let v = chars_of(name);
    if v.len() == 0 || !(is_alpha(v[0]) || v[0] == '_') {
        return false;
    }
    let mut i: usize = 1;
    while i < v.len()
        invariant
            1 <= i <= v@.len(),
            v@ == name@,
            forall|k: int| 0 < k < i ==> starts_name(#[trigger] v@[k]) || is_digit_char(v@[k]),
        decreases v@.len() - i,
    {
        if !(is_alpha(v[i]) || v[i] == '_' || is_digit(v[i])) {
            return false;
        }
        i += 1;
    }
    true
}

/// The first of the variables' names that no environment takes.
pub open spec fn first_bad_name(env: Seq<(Seq<char>, Seq<char>)>) -> Option<Seq<char>>
    decreases env.len(),
{
    if env.len() == 0 {
        None
    } else if !is_env_name(env[0].0) {
        Some(env[0].0)
    } else {
        first_bad_name(env.skip(1))
    }
}

/// The first variable of an entry whose name no environment takes: those it
/// sets in their order, then the model's.
pub open spec fn bad_variable(spec: AgentView) -> Option<Seq<char>> {
    if first_bad_name(spec.env) is Some {
        first_bad_name(spec.env)
    } else if spec.model_env is Some && !is_env_name(spec.model_env->0) {
        spec.model_env
    } else {
        None
    }
}

/// The names of a registry's entries.
pub open spec fn names_of(agents: Seq<(Seq<char>, AgentView)>) -> Seq<Seq<char>> {
    Seq::new(agents.len(), |i: int| agents[i].0)
}

/// The entry of a name, or what is wrong with it.
pub open spec fn chosen(agents: Seq<(Seq<char>, AgentView)>, name: Seq<char>) -> Result<
    AgentView,
    AgentErrorView,
> {
    match value_of(agents, name) {
        None => Err(AgentErrorView::Unknown(name, names_of(agents))),
        Some(spec) => if spec.command.len() == 0 {
            Err(AgentErrorView::NoCommand(name))
        } else if bad_variable(spec) is Some {
            Err(AgentErrorView::BadVariable(name, bad_variable(spec)->0))
        } else {
            Ok(spec)
        },
    }
}

fn names(agents: &Sorted<AgentSpec>) -> (r: Vec<String>)
    ensures
        views(r@) == names_of(agents@),
{
    let mut r: Vec<String> = Vec::new();
    let n = agents.len();
    for i in 0..n
        invariant
            n == agents@.len(),
            r@.len() == i,
            forall|k: int| 0 <= k < i ==> (#[trigger] r@[k])@ == agents@[k].0,
    {
        r.push(agents.key(i).to_owned());
    }
    assert(views(r@) =~= names_of(agents@));
    r
}

fn find_bad_name(env: &Sorted<String>) -> (r: Option<String>)
    ensures
        opt_view(r) == first_bad_name(env@),
{
    let mut i: usize = 0;
    assert(env@.skip(0) =~= env@);
    while i < env.len()
        invariant
            i <= env@.len(),
            first_bad_name(env@) == first_bad_name(env@.skip(i as int)),
        decreases env@.len() - i,
    {
        assert(env@.skip(i as int)[0] == env@[i as int]);
        let key = env.key(i);
        if !valid_env_name(key) {
            return Some(key.to_owned());
        }
        assert(env@.skip(i as int).skip(1) =~= env@.skip(i + 1));
        i += 1;
    }
    None
}

/// The entry NAME of a registry.
pub fn parse(agents: &Sorted<AgentSpec>, name: &str) -> (res: Result<AgentSpec, AgentError>)
    ensures
        match res {
            Ok(spec) => chosen(agents@, name@) == Ok::<AgentView, AgentErrorView>(spec@),
            Err(e) => chosen(agents@, name@) == Err::<AgentView, AgentErrorView>(e@),
        },
{
    match agents.get(name) {
        None => Err(AgentError::Unknown(name.to_owned(), names(agents))),
        Some(spec) => {
            if spec.command.len() == 0 {
                return Err(AgentError::NoCommand(name.to_owned()));
            }
            if let Some(var) = find_bad_name(&spec.env) {
                return Err(AgentError::BadVariable(name.to_owned(), var));
            }
            if let Some(var) = &spec.model_env {
                if !valid_env_name(var.as_str()) {
                    return Err(AgentError::BadVariable(name.to_owned(), var.clone()));
                }
            }
            Ok(spec.copy())
        },
    }
}

// ---- Starting an agent -------------------------------------------------

/// The agent's environment: its own variables, and the model's where it has
/// one and a model is given.
pub open spec fn environment(spec: AgentView, model: Option<Seq<char>>) -> Seq<
    (Seq<char>, Seq<char>),
> {
    if spec.model_env is Some && model is Some {
        placed(spec.env, spec.model_env->0, model->0)
    } else {
        spec.env
    }
}

/// Variables as env(1) takes them.
pub open spec fn assignments(env: Seq<(Seq<char>, Seq<char>)>) -> Seq<Seq<char>> {
    Seq::new(env.len(), |i: int| env[i].0 + "="@ + env[i].1)
}

/// The argv to spawn.
pub open spec fn argv_of(
    spec: AgentView,
    wrapper: Seq<Seq<char>>,
    model: Option<Seq<char>>,
) -> Seq<Seq<char>> {
    if wrapper.len() == 0 {
        spec.command
    } else {
        wrapper.push("env"@) + assignments(environment(spec, model)) + spec.command
    }
}

/// The environment to spawn it with.
pub open spec fn spawn_env_of(
    spec: AgentView,
    wrapper: Seq<Seq<char>>,
    model: Option<Seq<char>>,
) -> Seq<(Seq<char>, Seq<char>)> {
    if wrapper.len() == 0 {
        environment(spec, model)
    } else {
        Seq::empty()
    }
}

fn assign_all(env: &Sorted<String>) -> (r: Vec<String>)
    ensures
        views(r@) == assignments(env@),
{
    let mut r: Vec<String> = Vec::new();
    let n = env.len();
    for i in 0..n
        invariant
            n == env@.len(),
            r@.len() == i,
            forall|k: int| 0 <= k < i ==> (#[trigger] r@[k])@ == env@[k].0 + "="@ + env@[k].1,
    {
        let mut s = env.key(i).to_owned();
        s.append("=");
        s.append(env.value(i).as_str());
        r.push(s);
    }
    assert(views(r@) =~= assignments(env@));
    r
}

impl AgentSpec {
    /// The same entry again.
    pub fn copy(&self) -> (r: AgentSpec)
        ensures
            r@ == self@,
    {
        AgentSpec {
            command: copy_all(&self.command),
            env: self.env.copy(),
            model_env: copy_opt(&self.model_env),
        }
    }

    /// The argv to spawn, and the environment to spawn it with. Behind a
    /// WRAPPER (a command such as `sudo systemd-run ... --` that runs its
    /// arguments elsewhere, and doesn't pass the environment on), env(1)
    /// sets the environment instead, and looks the command up in the
    /// wrapped PATH (systemd-run searches only its own).
    pub fn command(&self, wrapper: &Vec<String>, model: Option<&str>) -> (r: (
        Vec<String>,
        Sorted<String>,
    ))
        ensures
            views(r.0@) == argv_of(self@, views(wrapper@), opt_str(model)),
            r.1@ == spawn_env_of(self@, views(wrapper@), opt_str(model)),
    {
        let mut env = self.env.copy();
        if let (Some(var), Some(model)) = (&self.model_env, model) {
            env = env.with(var.as_str(), model.to_owned());
        }
        if wrapper.len() == 0 {
            return (copy_all(&self.command), env);
        }
        let mut argv = copy_all(wrapper);
        argv.push("env".to_owned());
        let mut vars = assign_all(&env);
        let mut command = copy_all(&self.command);
        proof {
            lemma_views_add(argv@, vars@);
            lemma_views_add(argv@ + vars@, command@);
        }
        argv.append(&mut vars);
        argv.append(&mut command);
        (argv, Sorted::new())
    }
}

// ---- What holds of every agent -----------------------------------------

/// An agent of the registry always has something to spawn.
pub proof fn law_argv_is_never_empty(
    agents: Seq<(Seq<char>, AgentView)>,
    name: Seq<char>,
    wrapper: Seq<Seq<char>>,
    model: Option<Seq<char>>,
)
    requires
        chosen(agents, name) is Ok,
    ensures
        argv_of(chosen(agents, name)->Ok_0, wrapper, model).len() > 0,
{
}

/// The wrapper, where there is one, runs the agent: the argv starts with
/// the wrapper, ends with the agent's command, and takes no environment
/// with it.
pub proof fn law_wrapper_runs_the_agent(
    spec: AgentView,
    wrapper: Seq<Seq<char>>,
    model: Option<Seq<char>>,
)
    ensures
        ({
            let argv = argv_of(spec, wrapper, model);
            &&& argv.len() >= wrapper.len() + spec.command.len()
            &&& argv.take(wrapper.len() as int) == wrapper
            &&& argv.skip(argv.len() - spec.command.len()) == spec.command
            &&& wrapper.len() > 0 ==> spawn_env_of(spec, wrapper, model).len() == 0
        }),
{
    let argv = argv_of(spec, wrapper, model);
    assert(argv.take(wrapper.len() as int) =~= wrapper);
    assert(argv.skip(argv.len() - spec.command.len()) =~= spec.command);
}

/// An agent that takes its model from the environment is given it there,
/// in place of a value of its own; its other variables stay.
pub proof fn law_model_is_in_the_environment(spec: AgentView, model: Seq<char>, var: Seq<char>)
    requires
        spec.model_env is Some,
    ensures
        value_of(environment(spec, Some(model)), spec.model_env->0) == Some(model),
        var != spec.model_env->0 ==> value_of(environment(spec, Some(model)), var) == value_of(
            spec.env,
            var,
        ),
{
    crate::table::law_placed_then_value(spec.env, spec.model_env->0, model, var);
}

/// The first entry of a name is the agent that is chosen by it, where it
/// has a command and its variables have valid names; each other case is told
/// apart.
pub proof fn law_named_agents_are_chosen(
    agents: Seq<(Seq<char>, AgentView)>,
    name: Seq<char>,
    i: int,
    j: int,
)
    requires
        0 <= i <= agents.len(),
        i < agents.len() ==> agents[i].0 == name,
        forall|k: int| 0 <= k < i ==> #[trigger] agents[k].0 != name,
    ensures
        ({
            let agent = agents[i].1;
            let found = i < agents.len();
            let runs = found && agent.command.len() > 0;
            let model_ok = agent.model_env is None || is_env_name(agent.model_env->0);
            let good_to = |n: int|
                forall|k: int| 0 <= k < n ==> is_env_name(#[trigger] agent.env[k].0);
            &&& runs && good_to(agent.env.len() as int) && model_ok ==> chosen(agents, name) == Ok::<
                AgentView,
                AgentErrorView,
            >(agent)
            &&& runs && good_to(agent.env.len() as int) && !model_ok ==> chosen(agents, name)
                == Err::<AgentView, AgentErrorView>(
                AgentErrorView::BadVariable(name, agent.model_env->0),
            )
            &&& runs && 0 <= j < agent.env.len() && good_to(j) && !is_env_name(agent.env[j].0)
                ==> chosen(agents, name) == Err::<AgentView, AgentErrorView>(
                AgentErrorView::BadVariable(name, agent.env[j].0),
            )
            &&& found && agent.command.len() == 0 ==> chosen(agents, name) == Err::<
                AgentView,
                AgentErrorView,
            >(AgentErrorView::NoCommand(name))
            &&& !found ==> chosen(agents, name) == Err::<AgentView, AgentErrorView>(
                AgentErrorView::Unknown(name, agents.map_values(|a: (Seq<char>, AgentView)| a.0)),
            )
        }),
{
    crate::table::law_first_entry_counts(agents, name, i);
    assert(names_of(agents) =~= agents.map_values(|a: (Seq<char>, AgentView)| a.0));
    if i < agents.len() {
        let env = agents[i].1.env;
        if forall|k: int| 0 <= k < env.len() ==> is_env_name(#[trigger] env[k].0) {
            lemma_first_bad_name(env, env.len() as int);
        }
        if 0 <= j < env.len() && (forall|k: int| 0 <= k < j ==> is_env_name(#[trigger] env[k].0))
            && !is_env_name(env[j].0) {
            lemma_first_bad_name(env, j);
        }
    }
}

proof fn lemma_first_bad_name(env: Seq<(Seq<char>, Seq<char>)>, j: int)
    requires
        0 <= j <= env.len(),
        forall|k: int| 0 <= k < j ==> is_env_name(#[trigger] env[k].0),
        j < env.len() ==> !is_env_name(env[j].0),
    ensures
        first_bad_name(env) == if j < env.len() {
            Some(env[j].0)
        } else {
            None
        },
    decreases env.len(),
{
    if env.len() > 0 && j > 0 {
        assert(is_env_name(env[0].0));
        let rest = env.skip(1);
        assert forall|k: int| 0 <= k < j - 1 implies is_env_name(#[trigger] rest[k].0) by {
            assert(is_env_name(env[k + 1].0));
        }
        lemma_first_bad_name(rest, j - 1);
    }
}

/// The name of a variable is of ASCII letters, digits and underscores, and
/// starts with no digit.
pub proof fn law_variable_names_are_words(name: Seq<char>, i: int)
    ensures
        ({
            let letter = |c: char| 'a' <= c <= 'z' || 'A' <= c <= 'Z' || c == '_';
            &&& is_env_name(name) && 0 <= i < name.len() ==> letter(name[i]) || (i > 0 && '0'
                <= name[i] <= '9')
            &&& is_env_name(name) ==> name.len() > 0
            &&& name.len() > 0 && letter(name[0]) && (forall|k: int|
                0 < k < name.len() ==> letter(#[trigger] name[k]) || '0' <= name[k] <= '9')
                ==> is_env_name(name)
        }),
{
}

/// Without a wrapper an agent is run as it is, in its environment; with one,
/// the wrapper runs `env`, which sets each variable in turn and runs the
/// agent. The variables are those of the agent, and the model's.
pub proof fn law_agents_run_in_their_environment(
    spec: AgentView,
    wrapper: Seq<Seq<char>>,
    model: Option<Seq<char>>,
    i: int,
)
    ensures
        ({
            let argv = argv_of(spec, wrapper, model);
            let bare = Seq::<Seq<char>>::empty();
            let env = spawn_env_of(spec, bare, model);
            let start = wrapper.len() + 1;
            &&& argv_of(spec, bare, model) == spec.command
            &&& spec.model_env is None || model is None ==> env == spec.env
            &&& wrapper.len() > 0 ==> {
                &&& spawn_env_of(spec, wrapper, model).len() == 0
                &&& argv.len() == start + env.len() + spec.command.len()
                &&& 0 <= i < wrapper.len() ==> argv[i] == wrapper[i]
                &&& argv[wrapper.len() as int] == "env"@
                &&& 0 <= i < env.len() ==> argv[start + i] == env[i].0 + "="@ + env[i].1
                &&& 0 <= i < spec.command.len() ==> argv[start + env.len() + i] == spec.command[i]
            }
        }),
{
}

/// What is said of an agent that can't be run names it, and what is wrong.
pub proof fn law_agent_errors_are_told(name: Seq<char>, other: Seq<char>, var: Seq<char>)
    ensures
        agent_error_text(AgentErrorView::Unknown(name, seq![name, other])) == "no agent '"@ + name
            + "' (known: "@ + (name + ", "@ + other) + ")"@,
        agent_error_text(AgentErrorView::NoCommand(name)) == "agent '"@ + name
            + "' has an empty command"@,
        agent_error_text(AgentErrorView::BadVariable(name, var)) == "agent '"@ + name + "': '"@
            + var + "' is not a valid environment variable name"@,
{
    crate::text::law_joining_goes_on(seq![name], seq![other], ", "@);
    crate::text::law_joining_goes_on(seq![other], seq![], ", "@);
    assert(seq![name] + seq![other] =~= seq![name, other]);
}

} // verus!
