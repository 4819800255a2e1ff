//! The decisions of the command-line commands: where content comes from and
//! when it is refused, the document id of an ingested title, which fields a
//! page update needs, and what setting an agent up asks of its harness.

use vstd::prelude::*;
use vstd::string::*;

use crate::json::{Json, JsonView, json_lists, json_member, json_text};
use crate::text::{
    contains, contains_text, is_blank, is_blank_text, lowercase, replace_char, replace_char_in,
    to_lowercase, views_of,
};

verus! {

broadcast use vstd::string::group_string_axioms;

/// Where the content of an ingest or a retain is read from.
#[derive(Debug)]
pub enum ContentSource {
    /// The file at this path.
    File(String),
    /// The text given on the command line.
    Inline(String),
    /// Standard input.
    Stdin,
}

/// Where `ingest` reads its content: the file when one is named, else the
/// inline text when there is one, else standard input.
pub fn ingest_source(file_path: Option<&str>, inline_content: Option<&str>) -> (r: ContentSource)
    ensures
        match file_path {
            Some(p) => r matches ContentSource::File(q) && q@ == p@,
            None => match inline_content {
                Some(c) => r matches ContentSource::Inline(d) && d@ == c@,
                None => r matches ContentSource::Stdin,
            },
        },
{
    match file_path {
        Some(p) => ContentSource::File(String::from_str(p)),
        None => match inline_content {
            Some(c) => ContentSource::Inline(String::from_str(c)),
            None => ContentSource::Stdin,
        },
    }
}

/// Where `retain` reads its content: the file when one is named, else
/// standard input.
pub fn retain_source(input_file: Option<&str>) -> (r: ContentSource)
    ensures
        match input_file {
            Some(p) => r matches ContentSource::File(q) && q@ == p@,
            None => r matches ContentSource::Stdin,
        },
{
    match input_file {
        Some(p) => ContentSource::File(String::from_str(p)),
        None => ContentSource::Stdin,
    }
}

/// Why a command refuses to go on.
#[derive(Clone, Copy, Debug, PartialEq, Eq, Structural)]
pub enum CommandError {
    /// `ingest` was given no content, or only white space.
    NoContent,
    /// `retain` was given no content, or only white space.
    NothingToRetain,
    /// `wiki update` was given neither a new name nor a new query.
    NoUpdateFields,
}

impl CommandError {
    /// The message that reports this error.
    pub fn message(&self) -> (r: &'static str)
        ensures
            r@ == match self {
                CommandError::NoContent => "No content provided. Use --file, --content, or pipe to stdin."@,
                CommandError::NothingToRetain => "No content to retain."@,
                CommandError::NoUpdateFields => "At least one of --name or --source-query must be provided"@,
            },
    {
        match self {
            CommandError::NoContent => "No content provided. Use --file, --content, or pipe to stdin.",
            CommandError::NothingToRetain => "No content to retain.",
            CommandError::NoUpdateFields => "At least one of --name or --source-query must be provided",
        }
    }
}

/// Accepts the content of an ingest unless it is empty or only white space.
pub fn require_ingest_content(content: &str) -> (r: Result<(), CommandError>)
    ensures
        r is Err <==> is_blank_text(content@),
        r matches Err(e) ==> e == CommandError::NoContent,
{
    if is_blank(content) {
        Err(CommandError::NoContent)
    } else {
        Ok(())
    }
}

/// Accepts the content of a retain unless it is empty or only white space.
pub fn require_retain_content(content: &str) -> (r: Result<(), CommandError>)
    ensures
        r is Err <==> is_blank_text(content@),
        r matches Err(e) ==> e == CommandError::NothingToRetain,
{
    if is_blank(content) {
        Err(CommandError::NothingToRetain)
    } else {
        Ok(())
    }
}

/// Accepts a page update that changes the name, the query, or both.
pub fn require_update_fields(name: Option<&str>, source_query: Option<&str>) -> (r: Result<
    (),
    CommandError,
>)
    ensures
        r is Err <==> (name is None && source_query is None),
        r matches Err(e) ==> e == CommandError::NoUpdateFields,
{
    if name.is_none() && source_query.is_none() {
        Err(CommandError::NoUpdateFields)
    } else {
        Ok(())
    }
}

/// The document id under which an ingested title is stored, so that
/// ingesting a title again replaces the document: the title in lower case,
/// with each space made a hyphen.
pub open spec fn title_document_id(title: Seq<char>) -> Seq<char> {
    replace_char(lowercase(title), ' ', '-')
}

/// The document id under which an ingested title is stored.
pub fn document_id_for_title(title: &str) -> (r: String)
    ensures
        r@ == title_document_id(title@),
{
    let lower = to_lowercase(title);
    replace_char_in(lower.as_str(), ' ', '-')
}

/// What a retain reply says of the operation that it queued: its
/// `operation_id` when that is a string, else `queued`.
pub open spec fn operation_label_of(result: JsonView) -> Seq<char> {
    match json_member(result, "operation_id"@) {
        Some(v) => match json_text(v) {
            Some(t) => t,
            None => "queued"@,
        },
        None => "queued"@,
    }
}

/// What a retain reply says of the operation that it queued.
pub fn operation_label(result: &Json) -> (r: String)
    ensures
        r@ == operation_label_of(result@),
{
    match result.get_member("operation_id") {
        Some(v) => match v.as_text() {
            Some(t) => t.clone(),
            None => String::from_str("queued"),
        },
        None => String::from_str("queued"),
    }
}

// ── Harnesses ───────────────────────────────────────────

/// The agent harness that setup configures.
#[derive(Clone, Copy, Debug, PartialEq, Eq, Structural)]
pub enum Harness {
    Hermes,
    OpenClaw,
    /// A harness that setup knows nothing of, and leaves alone.
    Other,
}

/// The harness that `name` names.
pub open spec fn harness_named(name: Seq<char>) -> Harness {
    if name == "hermes"@ {
        Harness::Hermes
    } else if name == "openclaw"@ {
        Harness::OpenClaw
    } else {
        Harness::Other
    }
}

/// The harness that `name` names.
pub fn harness_of(name: &str) -> (r: Harness)
    ensures
        r == harness_named(name@),
{
    let n = String::from_str(name);
    if n == String::from_str("hermes") {
        Harness::Hermes
    } else if n == String::from_str("openclaw") {
        Harness::OpenClaw
    } else {
        Harness::Other
    }
}

/// A step of setting an agent up.
#[derive(Clone, Copy, Debug, PartialEq, Eq, Structural)]
pub enum SetupStep {
    /// Check that the API answers.
    CheckHealth,
    /// Create the bank by importing a template.
    ImportTemplate,
    /// Make sure that the bank exists.
    EnsureBank,
    /// Ingest the files of the content directory.
    IngestContent,
    /// Record the agent in the configuration file.
    SaveConfig,
    /// Set the harness up (or say that it is skipped); this step never fails.
    ConfigureHarness(Harness),
    /// Tell the user that the agent is ready.
    Finish,
}

/// What a setup was asked to do: whether a template and a content directory
/// were given, and for which harness.
#[derive(Clone, Copy, Debug, PartialEq, Eq, Structural)]
pub struct SetupPlan {
    pub template: bool,
    pub content: bool,
    pub harness: Harness,
}

/// The steps of a setup, in order. The agent is recorded only after the API
/// has answered, the bank exists and the content is queued.
pub open spec fn setup_steps(plan: SetupPlan) -> Seq<SetupStep> {
    seq![SetupStep::CheckHealth] + (if plan.template {
        seq![SetupStep::ImportTemplate]
    } else {
        seq![SetupStep::EnsureBank]
    }) + (if plan.content {
        seq![SetupStep::IngestContent]
    } else {
        Seq::empty()
    }) + seq![SetupStep::SaveConfig, SetupStep::ConfigureHarness(plan.harness), SetupStep::Finish]
}

/// The step that follows `step` in a setup, given whether `step` succeeded:
/// none after a failure, which ends the setup.
pub open spec fn setup_successor(plan: SetupPlan, step: SetupStep, succeeded: bool) -> Option<SetupStep> {
    if !succeeded {
        None
    } else {
        match step {
            SetupStep::CheckHealth => Some(
                if plan.template {
                    SetupStep::ImportTemplate
                } else {
                    SetupStep::EnsureBank
                },
            ),
            SetupStep::ImportTemplate | SetupStep::EnsureBank => Some(
                if plan.content {
                    SetupStep::IngestContent
                } else {
                    SetupStep::SaveConfig
                },
            ),
            SetupStep::IngestContent => Some(SetupStep::SaveConfig),
            SetupStep::SaveConfig => Some(SetupStep::ConfigureHarness(plan.harness)),
            SetupStep::ConfigureHarness(_) => Some(SetupStep::Finish),
            SetupStep::Finish => None,
        }
    }
}

/// The first step of a setup.
pub fn first_setup_step() -> (r: SetupStep)
    ensures
        r == SetupStep::CheckHealth,
{
    SetupStep::CheckHealth
}

/// The step that follows `step` in a setup, given whether `step` succeeded.
pub fn next_setup_step(plan: SetupPlan, step: SetupStep, succeeded: bool) -> (r: Option<SetupStep>)
    ensures
        r == setup_successor(plan, step, succeeded),
{
    if !succeeded {
        return None;
    }
    match step {
        SetupStep::CheckHealth => Some(
            if plan.template {
                SetupStep::ImportTemplate
            } else {
                SetupStep::EnsureBank
            },
        ),
        SetupStep::ImportTemplate | SetupStep::EnsureBank => Some(
            if plan.content {
                SetupStep::IngestContent
            } else {
                SetupStep::SaveConfig
            },
        ),
        SetupStep::IngestContent => Some(SetupStep::SaveConfig),
        SetupStep::SaveConfig => Some(SetupStep::ConfigureHarness(plan.harness)),
        SetupStep::ConfigureHarness(_) => Some(SetupStep::Finish),
        SetupStep::Finish => None,
    }
}

/// Starting at the first step and following, after each success, the
/// step's successor walks through exactly the steps of the setup, in order,
/// and then stops; a failure stops it at once.
pub proof fn lemma_setup_walk(plan: SetupPlan)
    ensures
        setup_steps(plan)[0] == SetupStep::CheckHealth,
        forall|i: int|
            0 <= i < setup_steps(plan).len() - 1 ==> setup_successor(plan, #[trigger] setup_steps(plan)[i], true)
                == Some(setup_steps(plan)[i + 1]),
        setup_successor(plan, setup_steps(plan).last(), true) is None,
        forall|step: SetupStep| #[trigger] setup_successor(plan, step, false) is None,
{
    let steps = setup_steps(plan);
    if plan.content {
        assert(steps =~= seq![
            SetupStep::CheckHealth,
            if plan.template { SetupStep::ImportTemplate } else { SetupStep::EnsureBank },
            SetupStep::IngestContent,
            SetupStep::SaveConfig,
            SetupStep::ConfigureHarness(plan.harness),
            SetupStep::Finish,
        ]);
    } else {
        assert(steps =~= seq![
            SetupStep::CheckHealth,
            if plan.template { SetupStep::ImportTemplate } else { SetupStep::EnsureBank },
            SetupStep::SaveConfig,
            SetupStep::ConfigureHarness(plan.harness),
            SetupStep::Finish,
        ]);
    }
}

/// The `n`-th step that a setup performs, when the steps before it ended as
/// `outcomes` says; none once the setup has stopped.
pub open spec fn setup_step_at(plan: SetupPlan, outcomes: Seq<bool>, n: nat) -> Option<SetupStep>
    decreases n,
{
    if n == 0 {
        Some(SetupStep::CheckHealth)
    } else {
        match setup_step_at(plan, outcomes, (n - 1) as nat) {
            Some(s) => setup_successor(plan, s, outcomes[n - 1]),
            None => None,
        }
    }
}

/// A setup performs its steps in order, each only when all those before it
/// succeeded: in particular the agent is recorded only when the API answered,
/// the bank was made and the content was queued.
pub proof fn lemma_setup_performs_in_order(plan: SetupPlan, outcomes: Seq<bool>, n: nat)
    requires
        n <= outcomes.len(),
    ensures
        setup_step_at(plan, outcomes, n) matches Some(s) ==> {
            &&& n < setup_steps(plan).len()
            &&& s == setup_steps(plan)[n as int]
            &&& forall|j: int| 0 <= j < n ==> #[trigger] outcomes[j]
        },
        setup_step_at(plan, outcomes, n) == Some(SetupStep::SaveConfig) ==> {
            &&& n == setup_steps(plan).len() - 3
            &&& forall|j: int| 0 <= j < n ==> #[trigger] outcomes[j]
        },
    decreases n,
{
    lemma_setup_walk(plan);
    let steps = setup_steps(plan);
    if n > 0 {
        lemma_setup_performs_in_order(plan, outcomes, (n - 1) as nat);
        if setup_step_at(plan, outcomes, n) is Some {
            let prev = setup_step_at(plan, outcomes, (n - 1) as nat);
            assert(prev is Some);
            assert(outcomes[n - 1]);
            if n - 1 == steps.len() - 1 {
                assert(prev->0 == steps.last());
            }
            assert forall|j: int| 0 <= j < n implies #[trigger] outcomes[j] by {
                if j < n - 1 {
                    assert(outcomes[j]);
                }
            }
        }
    }
    if setup_step_at(plan, outcomes, n) == Some(SetupStep::SaveConfig) {
        if plan.content {
            assert(steps =~= seq![
                SetupStep::CheckHealth,
                if plan.template { SetupStep::ImportTemplate } else { SetupStep::EnsureBank },
                SetupStep::IngestContent,
                SetupStep::SaveConfig,
                SetupStep::ConfigureHarness(plan.harness),
                SetupStep::Finish,
            ]);
        } else {
            assert(steps =~= seq![
                SetupStep::CheckHealth,
                if plan.template { SetupStep::ImportTemplate } else { SetupStep::EnsureBank },
                SetupStep::SaveConfig,
                SetupStep::ConfigureHarness(plan.harness),
                SetupStep::Finish,
            ]);
        }
    }
}

/// Whether `agent_id` is the Hermes default profile.
pub open spec fn is_default_profile(agent_id: Seq<char>) -> bool {
    agent_id == "default"@
}

/// Whether `agent_id` is the Hermes default profile.
fn default_profile(agent_id: &str) -> (r: bool)
    ensures
        r == is_default_profile(agent_id@),
{
    String::from_str(agent_id) == String::from_str("default")
}

/// What setup tells the user once the agent is ready, if anything.
pub open spec fn ready_hint_text(harness: Harness, agent_id: Seq<char>) -> Option<Seq<char>> {
    match harness {
        Harness::Hermes => if is_default_profile(agent_id) {
            Some("  Start chatting: hermes"@)
        } else {
            Some("  Start chatting: hermes --profile "@ + agent_id)
        },
        Harness::OpenClaw => Some("  Restart your openclaw gateway to pick up the new agent."@),
        Harness::Other => None,
    }
}

/// What setup tells the user once the agent is ready, if anything.
pub fn ready_hint(harness: Harness, agent_id: &str) -> (r: Option<String>)
    ensures
        match r {
            Some(t) => ready_hint_text(harness, agent_id@) == Some(t@),
            None => ready_hint_text(harness, agent_id@) is None,
        },
{
    match harness {
        Harness::Hermes => {
            if default_profile(agent_id) {
                Some(String::from_str("  Start chatting: hermes"))
            } else {
                let mut t = String::from_str("  Start chatting: hermes --profile ");
                t.append(agent_id);
                Some(t)
            }
        },
        Harness::OpenClaw => Some(String::from_str("  Restart your openclaw gateway to pick up the new agent.")),
        Harness::Other => None,
    }
}

/// How an outside program that setup runs ended.
#[derive(Debug)]
pub enum ProcessOutcome {
    /// The program could not be started.
    NotStarted,
    /// The program ran; whether it succeeded, and what it wrote to standard
    /// error.
    Finished { success: bool, stderr: String },
}

/// The command-line arguments that create a Hermes profile for `agent_id`,
/// cloning the current one without an alias.
pub open spec fn hermes_profile_arguments(agent_id: Seq<char>) -> Seq<Seq<char>> {
    seq!["profile"@, "create"@, agent_id, "--clone"@, "--no-alias"@]
}

/// The arguments of `hermes` that create a profile for `agent_id`; none for
/// the default profile, which always exists.
pub fn hermes_profile_args(agent_id: &str) -> (r: Option<Vec<String>>)
    ensures
        match r {
            Some(args) => !is_default_profile(agent_id@) && views_of(args@) == hermes_profile_arguments(
                agent_id@,
            ),
            None => is_default_profile(agent_id@),
        },
{
    if default_profile(agent_id) {
        return None;
    }
    let mut args: Vec<String> = Vec::new();
    args.push(String::from_str("profile"));
    args.push(String::from_str("create"));
    args.push(String::from_str(agent_id));
    args.push(String::from_str("--clone"));
    args.push(String::from_str("--no-alias"));
    assert(views_of(args@) =~= hermes_profile_arguments(agent_id@));
    Some(args)
}

/// What became of the attempt to create a Hermes profile.
#[derive(Clone, Copy, Debug, PartialEq, Eq, Structural)]
pub enum ProfileStatus {
    Created,
    AlreadyExisted,
    /// It failed otherwise: the user is told to create it by hand.
    CreateManually,
    /// The `hermes` program is not there.
    HermesMissing,
}

/// What became of the attempt to create a Hermes profile: a failure whose
/// error output says, in any case, that the profile already exists counts as
/// an existing profile.
pub open spec fn profile_status_of(outcome: ProcessOutcome) -> ProfileStatus {
    match outcome {
        ProcessOutcome::NotStarted => ProfileStatus::HermesMissing,
        ProcessOutcome::Finished { success, stderr } => if success {
            ProfileStatus::Created
        } else if contains_text(lowercase(stderr@), "already exists"@) {
            ProfileStatus::AlreadyExisted
        } else {
            ProfileStatus::CreateManually
        },
    }
}

/// What became of the attempt to create a Hermes profile.
pub fn profile_status(outcome: &ProcessOutcome) -> (r: ProfileStatus)
    ensures
        r == profile_status_of(*outcome),
{
    match outcome {
        ProcessOutcome::NotStarted => ProfileStatus::HermesMissing,
        ProcessOutcome::Finished { success, stderr } => {
            if *success {
                ProfileStatus::Created
            } else {
                let lower = to_lowercase(stderr.as_str());
                if contains(lower.as_str(), "already exists") {
                    ProfileStatus::AlreadyExisted
                } else {
                    ProfileStatus::CreateManually
                }
            }
        },
    }
}

/// The arguments of `hermes` that make Hindsight the memory provider of
/// `agent_id`'s profile (of the default profile without naming it).
pub open spec fn hermes_provider_arguments(agent_id: Seq<char>) -> Seq<Seq<char>> {
    (if is_default_profile(agent_id) {
        Seq::empty()
    } else {
        seq!["--profile"@, agent_id]
    }) + seq!["config"@, "set"@, "memory.provider"@, "hindsight_agent"@]
}

/// The arguments of `hermes` that make Hindsight the memory provider of
/// `agent_id`'s profile.
pub fn hermes_provider_args(agent_id: &str) -> (r: Vec<String>)
    ensures
        views_of(r@) == hermes_provider_arguments(agent_id@),
{
    let mut args: Vec<String> = Vec::new();
    if !default_profile(agent_id) {
        args.push(String::from_str("--profile"));
        args.push(String::from_str(agent_id));
    }
    args.push(String::from_str("config"));
    args.push(String::from_str("set"));
    args.push(String::from_str("memory.provider"));
    args.push(String::from_str("hindsight_agent"));
    assert(views_of(args@) =~= hermes_provider_arguments(agent_id@));
    args
}

/// Whether an outside program ran and succeeded (as setting the memory
/// provider or adding an OpenClaw agent must).
pub fn process_succeeded(outcome: &ProcessOutcome) -> (r: bool)
    ensures
        r == (*outcome matches ProcessOutcome::Finished { success, .. } && success),
{
    match outcome {
        ProcessOutcome::Finished { success, .. } => *success,
        ProcessOutcome::NotStarted => false,
    }
}

/// The arguments of `openclaw` that list its agents as JSON.
pub fn openclaw_list_args() -> (r: Vec<String>)
    ensures
        views_of(r@) == seq!["agents"@, "list"@, "--json"@],
{
    let mut args: Vec<String> = Vec::new();
    args.push(String::from_str("agents"));
    args.push(String::from_str("list"));
    args.push(String::from_str("--json"));
    assert(views_of(args@) =~= seq!["agents"@, "list"@, "--json"@]);
    args
}

/// The arguments of `openclaw` that add agent `agent_id` without asking
/// anything.
pub fn openclaw_add_args(agent_id: &str) -> (r: Vec<String>)
    ensures
        views_of(r@) == seq!["agents"@, "add"@, agent_id@, "--non-interactive"@],
{
    let mut args: Vec<String> = Vec::new();
    args.push(String::from_str("agents"));
    args.push(String::from_str("add"));
    args.push(String::from_str(agent_id));
    args.push(String::from_str("--non-interactive"));
    assert(views_of(args@) =~= seq!["agents"@, "add"@, agent_id@, "--non-interactive"@]);
    args
}

/// Whether OpenClaw already has agent `agent_id`, given its agent listing:
/// `None` when listing failed or did not print JSON.
pub open spec fn openclaw_has_agent(listing: Option<JsonView>, agent_id: Seq<char>) -> bool {
    match listing {
        Some(l) => json_lists(l, "agents"@, "name"@, agent_id),
        None => false,
    }
}

/// Whether OpenClaw already has agent `agent_id`, given its agent listing.
pub fn openclaw_agent_exists(listing: Option<&Json>, agent_id: &str) -> (r: bool)
    ensures
        r == openclaw_has_agent(
            match listing {
                Some(l) => Some(l@),
                None => None,
            },
            agent_id@,
        ),
{
    match listing {
        Some(l) => l.lists("agents", "name", agent_id),
        None => false,
    }
}

/// The document id of a title never holds a space.
pub proof fn lemma_document_id_has_no_space(title: Seq<char>)
    ensures
        forall|i: int| 0 <= i < title_document_id(title).len() ==> #[trigger] title_document_id(title)[i] != ' ',
{
}

/// An OpenClaw listing in which any agent, wherever it stands among the
/// listed agents, has the name `agent_id` shows that the agent exists, so it
/// is not added again.
pub proof fn lemma_listed_agent_found_anywhere(
    listing: JsonView,
    agent_id: Seq<char>,
    agents: Seq<JsonView>,
    i: int,
)
    requires
        json_member(listing, "agents"@) == Some(JsonView::Array(agents)),
        0 <= i < agents.len(),
        json_member(agents[i], "name"@) == Some(JsonView::Str(agent_id)),
    ensures
        openclaw_has_agent(Some(listing), agent_id),
{
    crate::json::lemma_lists_item_at(listing, "agents"@, "name"@, agent_id, agents, i);
}

/// The document id of a title is its lower-cased form, character for
/// character, with each space turned into a hyphen: it has the length of the
/// lower-cased title, so titles whose lower-cased forms differ in length, or
/// differ anywhere but in a space against a hyphen, get different ids.
pub proof fn lemma_document_id_follows_title(title: Seq<char>, other: Seq<char>)
    ensures
        title_document_id(title).len() == lowercase(title).len(),
        forall|i: int|
            0 <= i < lowercase(title).len() ==> #[trigger] title_document_id(title)[i] == if lowercase(
                title,
            )[i] == ' ' {
                '-'
            } else {
                lowercase(title)[i]
            },
        lowercase(title).len() != lowercase(other).len() ==> title_document_id(title)
            != title_document_id(other),
        (exists|i: int|
            0 <= i < lowercase(title).len() && i < lowercase(other).len() && lowercase(title)[i]
                != lowercase(other)[i] && #[trigger] lowercase(title)[i] != ' ' && lowercase(title)[i]
                != '-') ==> title_document_id(title) != title_document_id(other),
{
    if exists|i: int|
        0 <= i < lowercase(title).len() && i < lowercase(other).len() && lowercase(title)[i]
            != lowercase(other)[i] && #[trigger] lowercase(title)[i] != ' ' && lowercase(title)[i]
            != '-' {
        let i = choose|i: int|
            0 <= i < lowercase(title).len() && i < lowercase(other).len() && lowercase(title)[i]
                != lowercase(other)[i] && #[trigger] lowercase(title)[i] != ' ' && lowercase(title)[i]
                != '-';
        assert(title_document_id(title)[i] != title_document_id(other)[i]);
    }
}

} // verus!
