//! The JSON form of the agent configuration, as the configuration file holds
//! it: `{"agents": {"<id>": {"bank_id": .., "api_url": .., "api_token": ..,
//! "harness": .., "workspace": ..}}}`, where an absent token or workspace is
//! left out.

use vstd::prelude::*;
use vstd::string::*;

use crate::config::{
    AgentConfig, AgentConfigView, AgentMap, Config, Entries, entries_insert, entries_map,
    keys_distinct, has_key, lemma_entries_insert,
};
use crate::json::{Json, JsonView, items_view, json_member, member, members_view};

verus! {

broadcast use vstd::string::group_string_axioms;

/// A field of an agent's configuration.
#[derive(Clone, Copy, Debug, PartialEq, Eq, Structural)]
pub enum AgentField {
    BankId,
    ApiUrl,
    ApiToken,
    Harness,
    Workspace,
}

/// Why a JSON value is not an agent's configuration.
#[derive(Clone, Copy, Debug, PartialEq, Eq, Structural)]
pub enum FieldError {
    /// The value is neither an object nor an array.
    NotAStruct,
    /// The value is an array, but not of the five fields.
    WrongLength,
    /// A field is given twice.
    Duplicate(AgentField),
    /// A required field is absent.
    Missing(AgentField),
    /// A field holds something other than a string (or, for an optional
    /// field, other than a string or null).
    WrongType(AgentField),
}

/// The name under which a field is stored.
pub open spec fn field_key(f: AgentField) -> Seq<char> {
    match f {
        AgentField::BankId => "bank_id"@,
        AgentField::ApiUrl => "api_url"@,
        AgentField::ApiToken => "api_token"@,
        AgentField::Harness => "harness"@,
        AgentField::Workspace => "workspace"@,
    }
}

/// The name under which a field is stored.
pub fn field_name(f: AgentField) -> (r: &'static str)
    ensures
        r@ == field_key(f),
{
    match f {
        AgentField::BankId => "bank_id",
        AgentField::ApiUrl => "api_url",
        AgentField::ApiToken => "api_token",
        AgentField::Harness => "harness",
        AgentField::Workspace => "workspace",
    }
}

/// Whether `members` names `key` more than once.
pub open spec fn duplicated(members: Seq<(Seq<char>, JsonView)>, key: Seq<char>) -> bool {
    exists|i: int, k: int| 0 <= i < k < members.len() && #[trigger] members[i].0 == key && #[trigger] members[k].0 == key
}

/// The first field, in the order of the fields, that `members` gives twice.
pub open spec fn first_duplicate(members: Seq<(Seq<char>, JsonView)>) -> Option<AgentField> {
    if duplicated(members, field_key(AgentField::BankId)) {
        Some(AgentField::BankId)
    } else if duplicated(members, field_key(AgentField::ApiUrl)) {
        Some(AgentField::ApiUrl)
    } else if duplicated(members, field_key(AgentField::ApiToken)) {
        Some(AgentField::ApiToken)
    } else if duplicated(members, field_key(AgentField::Harness)) {
        Some(AgentField::Harness)
    } else if duplicated(members, field_key(AgentField::Workspace)) {
        Some(AgentField::Workspace)
    } else {
        None
    }
}

/// The text that value `v` of a required field `f` holds.
pub open spec fn text_element(v: JsonView, f: AgentField) -> Result<Seq<char>, FieldError> {
    match v {
        JsonView::Str(s) => Ok(s),
        _ => Err(FieldError::WrongType(f)),
    }
}

/// The text that value `v` of an optional field `f` holds; null counts as
/// absent.
pub open spec fn optional_element(v: JsonView, f: AgentField) -> Result<Option<Seq<char>>, FieldError> {
    match v {
        JsonView::Str(s) => Ok(Some(s)),
        JsonView::Null => Ok(None),
        _ => Err(FieldError::WrongType(f)),
    }
}

/// The text of a required field of `j`.
pub open spec fn required_field(j: JsonView, f: AgentField) -> Result<Seq<char>, FieldError> {
    match json_member(j, field_key(f)) {
        Some(v) => text_element(v, f),
        None => Err(FieldError::Missing(f)),
    }
}

/// The text of an optional field of `j`; an absent field counts as absent.
pub open spec fn optional_field(j: JsonView, f: AgentField) -> Result<Option<Seq<char>>, FieldError> {
    match json_member(j, field_key(f)) {
        Some(v) => optional_element(v, f),
        None => Ok(None),
    }
}

/// The configuration made of the five fields, or the error of the first
/// field, in order, that has one.
pub open spec fn assemble(
    bank_id: Result<Seq<char>, FieldError>,
    api_url: Result<Seq<char>, FieldError>,
    api_token: Result<Option<Seq<char>>, FieldError>,
    harness: Result<Seq<char>, FieldError>,
    workspace: Result<Option<Seq<char>>, FieldError>,
) -> Result<AgentConfigView, FieldError> {
    if bank_id is Err {
        Err(bank_id->Err_0)
    } else if api_url is Err {
        Err(api_url->Err_0)
    } else if api_token is Err {
        Err(api_token->Err_0)
    } else if harness is Err {
        Err(harness->Err_0)
    } else if workspace is Err {
        Err(workspace->Err_0)
    } else {
        Ok(
            AgentConfigView {
                bank_id: bank_id->Ok_0,
                api_url: api_url->Ok_0,
                api_token: api_token->Ok_0,
                harness: harness->Ok_0,
                workspace: workspace->Ok_0,
            },
        )
    }
}

/// The agent configuration that `j` holds. It is either an object, whose
/// members other than the five fields are ignored and which gives no field
/// twice, or an array of the five fields in order.
pub open spec fn agent_from_json(j: JsonView) -> Result<AgentConfigView, FieldError> {
    match j {
        JsonView::Object(ms) => match first_duplicate(ms) {
            Some(f) => Err(FieldError::Duplicate(f)),
            None => assemble(
                required_field(j, AgentField::BankId),
                required_field(j, AgentField::ApiUrl),
                optional_field(j, AgentField::ApiToken),
                required_field(j, AgentField::Harness),
                optional_field(j, AgentField::Workspace),
            ),
        },
        JsonView::Array(xs) => if xs.len() != 5 {
            Err(FieldError::WrongLength)
        } else {
            assemble(
                text_element(xs[0], AgentField::BankId),
                text_element(xs[1], AgentField::ApiUrl),
                optional_element(xs[2], AgentField::ApiToken),
                text_element(xs[3], AgentField::Harness),
                optional_element(xs[4], AgentField::Workspace),
            )
        },
        _ => Err(FieldError::NotAStruct),
    }
}

/// The member for an optional field: none when the field is absent.
pub open spec fn optional_member(f: AgentField, o: Option<Seq<char>>) -> Seq<(Seq<char>, JsonView)> {
    match o {
        Some(s) => seq![(field_key(f), JsonView::Str(s))],
        None => Seq::empty(),
    }
}

/// The members of the JSON form of an agent's configuration.
pub open spec fn agent_members(a: AgentConfigView) -> Seq<(Seq<char>, JsonView)> {
    seq![
        (field_key(AgentField::BankId), JsonView::Str(a.bank_id)),
        (field_key(AgentField::ApiUrl), JsonView::Str(a.api_url)),
    ] + optional_member(AgentField::ApiToken, a.api_token) + seq![
        (field_key(AgentField::Harness), JsonView::Str(a.harness)),
    ] + optional_member(AgentField::Workspace, a.workspace)
}

/// The JSON form of an agent's configuration.
pub open spec fn agent_json(a: AgentConfigView) -> JsonView {
    JsonView::Object(agent_members(a))
}

/// The JSON form of a table of agents: an object with a member per agent.
pub open spec fn agents_json(es: Entries) -> JsonView {
    JsonView::Object(es.map_values(|e: (Seq<char>, AgentConfigView)| (e.0, agent_json(e.1))))
}

/// The JSON form of a configuration.
pub open spec fn config_json(es: Entries) -> JsonView {
    JsonView::Object(seq![("agents"@, agents_json(es))])
}

/// Why a JSON value is not a configuration.
#[derive(Debug)]
pub enum ConfigFormatError {
    /// The value is neither an object nor an array.
    NotAStruct,
    /// The value is an array, but not of one element.
    WrongLength,
    /// It gives `agents` twice.
    DuplicateAgents,
    /// It has no `agents` member.
    MissingAgents,
    /// Its `agents` member is not an object.
    AgentsNotAnObject,
    /// The configuration of agent `agent_id` is not valid.
    InvalidAgent { agent_id: String, problem: FieldError },
}

/// The value of a [`ConfigFormatError`].
pub enum ConfigFormatErrorView {
    NotAStruct,
    WrongLength,
    DuplicateAgents,
    MissingAgents,
    AgentsNotAnObject,
    InvalidAgent(Seq<char>, FieldError),
}

impl View for ConfigFormatError {
    type V = ConfigFormatErrorView;

    open spec fn view(&self) -> ConfigFormatErrorView {
        match self {
            ConfigFormatError::NotAStruct => ConfigFormatErrorView::NotAStruct,
            ConfigFormatError::WrongLength => ConfigFormatErrorView::WrongLength,
            ConfigFormatError::DuplicateAgents => ConfigFormatErrorView::DuplicateAgents,
            ConfigFormatError::MissingAgents => ConfigFormatErrorView::MissingAgents,
            ConfigFormatError::AgentsNotAnObject => ConfigFormatErrorView::AgentsNotAnObject,
            ConfigFormatError::InvalidAgent { agent_id, problem } => ConfigFormatErrorView::InvalidAgent(
                agent_id@,
                *problem,
            ),
        }
    }
}

/// The table that the members of an `agents` object describe, read in order;
/// a later member for an id replaces an earlier one.
pub open spec fn agents_from_members(ms: Seq<(Seq<char>, JsonView)>) -> Result<
    Entries,
    ConfigFormatErrorView,
>
    decreases ms.len(),
{
    if ms.len() == 0 {
        Ok(Seq::empty())
    } else {
        match agents_from_members(ms.drop_last()) {
            Err(e) => Err(e),
            Ok(es) => match agent_from_json(ms.last().1) {
                Ok(a) => Ok(entries_insert(es, ms.last().0, a)),
                Err(p) => Err(ConfigFormatErrorView::InvalidAgent(ms.last().0, p)),
            },
        }
    }
}

/// The configuration that `j` holds: an object whose `agents` member, given
/// once, is an object; or an array of that one object.
pub open spec fn config_from_json(j: JsonView) -> Result<Entries, ConfigFormatErrorView> {
    match j {
        JsonView::Object(ms) => if duplicated(ms, "agents"@) {
            Err(ConfigFormatErrorView::DuplicateAgents)
        } else {
            match member(ms, "agents"@) {
                Some(JsonView::Object(agents)) => agents_from_members(agents),
                Some(_) => Err(ConfigFormatErrorView::AgentsNotAnObject),
                None => Err(ConfigFormatErrorView::MissingAgents),
            }
        },
        JsonView::Array(xs) => if xs.len() != 1 {
            Err(ConfigFormatErrorView::WrongLength)
        } else {
            match xs[0] {
                JsonView::Object(agents) => agents_from_members(agents),
                _ => Err(ConfigFormatErrorView::AgentsNotAnObject),
            }
        },
        _ => Err(ConfigFormatErrorView::NotAStruct),
    }
}

// ── Lemmas on member lookup ─────────────────────────────

/// A member is found at the last position that has its name.
pub proof fn lemma_member_found(ms: Seq<(Seq<char>, JsonView)>, key: Seq<char>, i: int)
    requires
        0 <= i < ms.len(),
        ms[i].0 == key,
        forall|j: int| i < j < ms.len() ==> #[trigger] ms[j].0 != key,
    ensures
        member(ms, key) == Some(ms[i].1),
    decreases ms.len(),
{
    if i < ms.len() - 1 {
        assert(ms.last().0 != key);
        let rest = ms.drop_last();
        assert forall|j: int| i < j < rest.len() implies #[trigger] rest[j].0 != key by {
            assert(rest[j] == ms[j]);
        }
        lemma_member_found(rest, key, i);
    }
}

/// A name that no member has is not found.
pub proof fn lemma_member_absent(ms: Seq<(Seq<char>, JsonView)>, key: Seq<char>)
    requires
        forall|j: int| 0 <= j < ms.len() ==> #[trigger] ms[j].0 != key,
    ensures
        member(ms, key) is None,
    decreases ms.len(),
{
    if ms.len() > 0 {
        assert(ms.last().0 != key);
        let rest = ms.drop_last();
        assert forall|j: int| 0 <= j < rest.len() implies #[trigger] rest[j].0 != key by {
            assert(rest[j] == ms[j]);
        }
        lemma_member_absent(rest, key);
    }
}

/// The five field names differ from each other.
pub proof fn lemma_field_keys_distinct()
    ensures
        forall|f: AgentField, g: AgentField| f != g ==> field_key(f) != field_key(g),
{
    reveal_strlit("bank_id");
    reveal_strlit("api_url");
    reveal_strlit("api_token");
    reveal_strlit("harness");
    reveal_strlit("workspace");
    assert forall|f: AgentField, g: AgentField| f != g implies field_key(f) != field_key(g) by {
        if field_key(f).len() == field_key(g).len() {
            match f {
                AgentField::BankId => {
                    assert(field_key(f)[0] != field_key(g)[0] || field_key(f)[4] != field_key(g)[4]);
                },
                AgentField::ApiUrl => {
                    assert(field_key(f)[0] != field_key(g)[0] || field_key(f)[4] != field_key(g)[4]);
                },
                _ => {
                    assert(field_key(f)[0] != field_key(g)[0]);
                },
            }
        }
    }
}

/// Reading the JSON form of an agent's configuration gives the configuration
/// back.
pub proof fn lemma_agent_json_roundtrip(a: AgentConfigView)
    ensures
        agent_from_json(agent_json(a)) == Ok::<AgentConfigView, FieldError>(a),
{
    lemma_field_keys_distinct();
    let ms = agent_members(a);
    // Every member of `ms` is named by a field, and no field names two members.
    let t: int = if a.api_token is Some { 1 } else { 0 };
    assert(ms[0].0 == field_key(AgentField::BankId));
    assert(ms[1].0 == field_key(AgentField::ApiUrl));
    assert(ms[2 + t].0 == field_key(AgentField::Harness));
    if a.api_token is Some {
        assert(ms[2].0 == field_key(AgentField::ApiToken));
    }
    if a.workspace is Some {
        assert(ms[3 + t].0 == field_key(AgentField::Workspace));
        assert(ms.len() == 4 + t);
    } else {
        assert(ms.len() == 3 + t);
    }
    // No member name occurs twice.
    assert forall|i: int, k: int| 0 <= i < k < ms.len() implies ms[i].0 != ms[k].0 by {
        if a.api_token is Some {
            assert(ms[2].0 == field_key(AgentField::ApiToken));
        }
        if a.workspace is Some {
            assert(ms[3 + t].0 == field_key(AgentField::Workspace));
        }
    }
    lemma_member_found(ms, field_key(AgentField::BankId), 0);
    lemma_member_found(ms, field_key(AgentField::ApiUrl), 1);
    lemma_member_found(ms, field_key(AgentField::Harness), 2 + t);
    if a.api_token is Some {
        lemma_member_found(ms, field_key(AgentField::ApiToken), 2);
    } else {
        lemma_member_absent(ms, field_key(AgentField::ApiToken));
    }
    if a.workspace is Some {
        lemma_member_found(ms, field_key(AgentField::Workspace), 3 + t);
    } else {
        lemma_member_absent(ms, field_key(AgentField::Workspace));
    }
    assert(first_duplicate(ms) is None);
}

/// Reading the members of an `agents` object fails from the first member
/// that fails on.
proof fn lemma_agents_error_persists(ms: Seq<(Seq<char>, JsonView)>, k: int)
    requires
        0 <= k <= ms.len(),
        agents_from_members(ms.take(k)) is Err,
    ensures
        agents_from_members(ms) == agents_from_members(ms.take(k)),
    decreases ms.len() - k,
{
    if k < ms.len() {
        assert(ms.take(k + 1).drop_last() =~= ms.take(k));
        lemma_agents_error_persists(ms, k + 1);
    } else {
        assert(ms.take(k) =~= ms);
    }
}

/// Reading the JSON form of a table without repeated ids gives the table
/// back, entry for entry and in order.
pub proof fn lemma_agents_json_roundtrip(es: Entries)
    requires
        keys_distinct(es),
    ensures
        agents_from_members(
            es.map_values(|e: (Seq<char>, AgentConfigView)| (e.0, agent_json(e.1))),
        ) == Ok::<Entries, ConfigFormatErrorView>(es),
    decreases es.len(),
{
    let ms = es.map_values(|e: (Seq<char>, AgentConfigView)| (e.0, agent_json(e.1)));
    if es.len() > 0 {
        let rest = es.drop_last();
        assert(keys_distinct(rest)) by {
            assert forall|a: int, b: int| 0 <= a < b < rest.len() implies #[trigger] rest[a].0
                != #[trigger] rest[b].0 by {
                assert(rest[a] == es[a] && rest[b] == es[b]);
            }
        }
        lemma_agents_json_roundtrip(rest);
        assert(ms.drop_last() =~= rest.map_values(
            |e: (Seq<char>, AgentConfigView)| (e.0, agent_json(e.1)),
        ));
        lemma_agent_json_roundtrip(es.last().1);
        assert(!has_key(rest, es.last().0)) by {
            if has_key(rest, es.last().0) {
                let i: int = choose|i: int| 0 <= i < rest.len() && #[trigger] rest[i].0 == es.last().0;
                assert(es[i].0 == es[es.len() - 1].0);
            }
        }
        assert(rest.push(es.last()) =~= es);
    } else {
        assert(es =~= Seq::<(Seq<char>, AgentConfigView)>::empty());
    }
}

/// Reading the JSON form of a configuration gives the configuration back.
pub proof fn lemma_config_json_roundtrip(es: Entries)
    requires
        keys_distinct(es),
    ensures
        config_from_json(config_json(es)) == Ok::<Entries, ConfigFormatErrorView>(es),
{
    lemma_agents_json_roundtrip(es);
    let top = seq![("agents"@, agents_json(es))];
    lemma_member_found(top, "agents"@, 0);
    assert(!duplicated(top, "agents"@));
}

// ── Reading and writing ─────────────────────────────────

/// The view of the result of reading a required field.
pub open spec fn text_result(r: Result<String, FieldError>) -> Result<Seq<char>, FieldError> {
    match r {
        Ok(s) => Ok(s@),
        Err(e) => Err(e),
    }
}

/// The view of the result of reading an optional field.
pub open spec fn optional_result(r: Result<Option<String>, FieldError>) -> Result<
    Option<Seq<char>>,
    FieldError,
> {
    match r {
        Ok(o) => Ok(crate::config::opt_text(o)),
        Err(e) => Err(e),
    }
}

/// The text that value `v` of required field `f` holds.
fn text_value(v: &Json, f: AgentField) -> (r: Result<String, FieldError>)
    ensures
        text_result(r) == text_element(v@, f),
{
    match v {
        Json::Str(s) => Ok(s.clone()),
        _ => Err(FieldError::WrongType(f)),
    }
}

/// The text that value `v` of optional field `f` holds.
fn optional_value(v: &Json, f: AgentField) -> (r: Result<Option<String>, FieldError>)
    ensures
        optional_result(r) == optional_element(v@, f),
{
    match v {
        Json::Str(s) => Ok(Some(s.clone())),
        Json::Null => Ok(None),
        _ => Err(FieldError::WrongType(f)),
    }
}

/// The text of required field `f` of `j`.
fn required_text(j: &Json, f: AgentField) -> (r: Result<String, FieldError>)
    ensures
        text_result(r) == required_field(j@, f),
{
    match j.get_member(field_name(f)) {
        Some(v) => text_value(v, f),
        None => Err(FieldError::Missing(f)),
    }
}

/// The text of optional field `f` of `j`.
fn optional_text(j: &Json, f: AgentField) -> (r: Result<Option<String>, FieldError>)
    ensures
        optional_result(r) == optional_field(j@, f),
{
    match j.get_member(field_name(f)) {
        Some(v) => optional_value(v, f),
        None => Ok(None),
    }
}

/// The configuration of five read fields, or the first error among them.
fn assemble_fields(
    bank_id: Result<String, FieldError>,
    api_url: Result<String, FieldError>,
    api_token: Result<Option<String>, FieldError>,
    harness: Result<String, FieldError>,
    workspace: Result<Option<String>, FieldError>,
) -> (r: Result<AgentConfig, FieldError>)
    ensures
        match r {
            Ok(a) => assemble(
                text_result(bank_id),
                text_result(api_url),
                optional_result(api_token),
                text_result(harness),
                optional_result(workspace),
            ) == Ok::<AgentConfigView, FieldError>(a@),
            Err(e) => assemble(
                text_result(bank_id),
                text_result(api_url),
                optional_result(api_token),
                text_result(harness),
                optional_result(workspace),
            ) == Err::<AgentConfigView, FieldError>(e),
        },
{
    let bank_id = bank_id?;
    let api_url = api_url?;
    let api_token = api_token?;
    let harness = harness?;
    let workspace = workspace?;
    Ok(AgentConfig { bank_id, api_url, api_token, harness, workspace })
}

/// Whether `members` names `key` more than once.
fn has_duplicate(members: &Vec<(String, Json)>, key: &str) -> (r: bool)
    ensures
        r == duplicated(members_view(members@), key@),
{
    proof {
        Json::lemma_members_view(members@);
    }
    let ghost ms = members_view(members@);
    let k = String::from_str(key);
    let mut seen = false;
    let mut i: usize = 0;
    while i < members.len()
        invariant
            i <= members@.len(),
            ms == members_view(members@),
            ms.len() == members@.len(),
            forall|m: int| 0 <= m < members@.len() ==> #[trigger] ms[m] == (members@[m].0@, members@[m].1@),
            k@ == key@,
            seen == (exists|m: int| 0 <= m < i && #[trigger] ms[m].0 == key@),
            forall|a: int, b: int| 0 <= a < b < i ==> !(#[trigger] ms[a].0 == key@ && #[trigger] ms[b].0 == key@),
        decreases members.len() - i,
    {
        if members[i].0 == k {
            assert(ms[i as int].0 == key@);
            if seen {
                let ghost m = choose|m: int| 0 <= m < i && #[trigger] ms[m].0 == key@;
                assert(ms[m].0 == key@ && ms[i as int].0 == key@);
                return true;
            }
            seen = true;
        }
        i = i + 1;
    }
    false
}

/// The first field, in order, that `members` gives twice.
fn duplicate_field(members: &Vec<(String, Json)>) -> (r: Option<AgentField>)
    ensures
        r == first_duplicate(members_view(members@)),
{
    if has_duplicate(members, field_name(AgentField::BankId)) {
        Some(AgentField::BankId)
    } else if has_duplicate(members, field_name(AgentField::ApiUrl)) {
        Some(AgentField::ApiUrl)
    } else if has_duplicate(members, field_name(AgentField::ApiToken)) {
        Some(AgentField::ApiToken)
    } else if has_duplicate(members, field_name(AgentField::Harness)) {
        Some(AgentField::Harness)
    } else if has_duplicate(members, field_name(AgentField::Workspace)) {
        Some(AgentField::Workspace)
    } else {
        None
    }
}

impl AgentConfig {
    /// The JSON form of this configuration.
    pub fn to_json(&self) -> (r: Json)
        ensures
            r@ == agent_json(self@),
    {
        let mut ms: Vec<(String, Json)> = Vec::new();
        ms.push((String::from_str(field_name(AgentField::BankId)), Json::Str(self.bank_id.clone())));
        ms.push((String::from_str(field_name(AgentField::ApiUrl)), Json::Str(self.api_url.clone())));
        match &self.api_token {
            Some(t) => {
                ms.push((String::from_str(field_name(AgentField::ApiToken)), Json::Str(t.clone())));
            },
            None => {},
        }
        ms.push((String::from_str(field_name(AgentField::Harness)), Json::Str(self.harness.clone())));
        match &self.workspace {
            Some(w) => {
                ms.push((String::from_str(field_name(AgentField::Workspace)), Json::Str(w.clone())));
            },
            None => {},
        }
        proof {
            Json::lemma_members_view(ms@);
            assert(members_view(ms@) =~= agent_members(self@));
        }
        Json::Object(ms)
    }

    /// The configuration that `j` holds.
    pub fn from_json(j: &Json) -> (r: Result<AgentConfig, FieldError>)
        ensures
            match r {
                Ok(a) => agent_from_json(j@) == Ok::<AgentConfigView, FieldError>(a@),
                Err(e) => agent_from_json(j@) == Err::<AgentConfigView, FieldError>(e),
            },
    {
        match j {
            Json::Object(members) => {
                proof {
                    Json::lemma_members_view(members@);
                }
                match duplicate_field(members) {
                    Some(f) => Err(FieldError::Duplicate(f)),
                    None => assemble_fields(
                        required_text(j, AgentField::BankId),
                        required_text(j, AgentField::ApiUrl),
                        optional_text(j, AgentField::ApiToken),
                        required_text(j, AgentField::Harness),
                        optional_text(j, AgentField::Workspace),
                    ),
                }
            },
            Json::Array(items) => {
                proof {
                    Json::lemma_items_view(items@);
                }
                if items.len() != 5 {
                    return Err(FieldError::WrongLength);
                }
                assemble_fields(
                    text_value(&items[0], AgentField::BankId),
                    text_value(&items[1], AgentField::ApiUrl),
                    optional_value(&items[2], AgentField::ApiToken),
                    text_value(&items[3], AgentField::Harness),
                    optional_value(&items[4], AgentField::Workspace),
                )
            },
            _ => Err(FieldError::NotAStruct),
        }
    }
}

impl AgentMap {
    /// The JSON form of this table: an object with a member per agent.
    pub fn to_json(&self) -> (r: Json)
        ensures
            r@ == agents_json(self@),
    {
        let mut ms: Vec<(String, Json)> = Vec::new();
        let mut i: usize = 0;
        let ghost es = self@;
        let ghost want = es.map_values(|e: (Seq<char>, AgentConfigView)| (e.0, agent_json(e.1)));
        while i < self.len()
            invariant
                es == self@,
                want == es.map_values(|e: (Seq<char>, AgentConfigView)| (e.0, agent_json(e.1))),
                i <= es.len(),
                ms@.len() == i,
                forall|k: int| 0 <= k < i ==> (#[trigger] ms@[k]).0@ == want[k].0 && ms@[k].1@ == want[k].1,
            decreases es.len() - i,
        {
            let (id, agent) = self.entry_at(i);
            ms.push((id.clone(), agent.to_json()));
            i = i + 1;
        }
        proof {
            Json::lemma_members_view(ms@);
            assert(members_view(ms@) =~= want);
        }
        Json::Object(ms)
    }
}

impl Config {
    /// The JSON form of this configuration.
    pub fn to_json(&self) -> (r: Json)
        ensures
            r@ == config_json(self.agents@),
    {
        let mut ms: Vec<(String, Json)> = Vec::new();
        ms.push((String::from_str("agents"), self.agents.to_json()));
        proof {
            Json::lemma_members_view(ms@);
            assert(members_view(ms@) =~= seq![("agents"@, agents_json(self.agents@))]);
        }
        Json::Object(ms)
    }

    /// The configuration that `j` holds.
    pub fn from_json(j: &Json) -> (r: Result<Config, ConfigFormatError>)
        ensures
            match r {
                Ok(c) => config_from_json(j@) == Ok::<Entries, ConfigFormatErrorView>(c.agents@)
                    && keys_distinct(c.agents@),
                Err(e) => config_from_json(j@) == Err::<Entries, ConfigFormatErrorView>(e@),
            },
    {
        let members: &Vec<(String, Json)> = match j {
            Json::Object(top) => {
                proof {
                    Json::lemma_members_view(top@);
                }
                if has_duplicate(top, "agents") {
                    return Err(ConfigFormatError::DuplicateAgents);
                }
                match j.get_member("agents") {
                    Some(Json::Object(members)) => members,
                    Some(_) => {
                        return Err(ConfigFormatError::AgentsNotAnObject);
                    },
                    None => {
                        return Err(ConfigFormatError::MissingAgents);
                    },
                }
            },
            Json::Array(items) => {
                proof {
                    Json::lemma_items_view(items@);
                }
                if items.len() != 1 {
                    return Err(ConfigFormatError::WrongLength);
                }
                match &items[0] {
                    Json::Object(members) => members,
                    _ => {
                        return Err(ConfigFormatError::AgentsNotAnObject);
                    },
                }
            },
            _ => {
                return Err(ConfigFormatError::NotAStruct);
            },
        };
        proof {
            Json::lemma_members_view(members@);
        }
        let ghost ms = members_view(members@);
        let mut agents = AgentMap::new();
        let mut i: usize = 0;
        assert(ms.take(0) =~= Seq::<(Seq<char>, JsonView)>::empty());
        assert(config_from_json(j@) == agents_from_members(ms));
        while i < members.len()
            invariant
                config_from_json(j@) == agents_from_members(ms),
                ms == members_view(members@),
                ms.len() == members@.len(),
                forall|k: int| 0 <= k < members@.len() ==> #[trigger] ms[k] == (members@[k].0@, members@[k].1@),
                i <= members.len(),
                agents_from_members(ms.take(i as int)) == Ok::<Entries, ConfigFormatErrorView>(agents@),
                keys_distinct(agents@),
            decreases members.len() - i,
        {
            assert(ms.take(i + 1).drop_last() =~= ms.take(i as int));
            assert(ms.take(i + 1).last() == ms[i as int]);
            match AgentConfig::from_json(&members[i].1) {
                Ok(agent) => {
                    agents.insert(members[i].0.clone(), agent);
                },
                Err(problem) => {
                    let ghost k = i + 1;
                    let id = members[i].0.clone();
                    proof {
                        assert(agents_from_members(ms.take(k)) == Err::<Entries, ConfigFormatErrorView>(
                            ConfigFormatErrorView::InvalidAgent(id@, problem),
                        ));
                        lemma_agents_error_persists(ms, k);
                    }
                    return Err(ConfigFormatError::InvalidAgent { agent_id: id, problem });
                },
            }
            i = i + 1;
        }
        assert(ms.take(members.len() as int) =~= ms);
        Ok(Config { agents })
    }
}

/// The JSON form of an agent's configuration holds a token exactly when the
/// configuration has one, and a workspace exactly when it has one.
pub proof fn lemma_optional_fields_written_when_present(a: AgentConfigView)
    ensures
        json_member(agent_json(a), field_key(AgentField::ApiToken)) is Some <==> a.api_token is Some,
        json_member(agent_json(a), field_key(AgentField::Workspace)) is Some <==> a.workspace is Some,
{
    lemma_agent_json_roundtrip(a);
    lemma_field_keys_distinct();
    let ms = agent_members(a);
    let t: int = if a.api_token is Some { 1 } else { 0 };
    if a.api_token is None {
        assert forall|j: int| 0 <= j < ms.len() implies #[trigger] ms[j].0 != field_key(AgentField::ApiToken) by {
            if a.workspace is Some && j == 3 {
                assert(ms[j].0 == field_key(AgentField::Workspace));
            }
        }
        lemma_member_absent(ms, field_key(AgentField::ApiToken));
    }
    if a.workspace is None {
        assert forall|j: int| 0 <= j < ms.len() implies #[trigger] ms[j].0 != field_key(AgentField::Workspace) by {
            if a.api_token is Some && j == 2 {
                assert(ms[j].0 == field_key(AgentField::ApiToken));
            }
        }
        lemma_member_absent(ms, field_key(AgentField::Workspace));
    }
}

/// An agent recorded under an id and written out is found under that id
/// when the configuration is read back, and every other agent is found as
/// before.
pub proof fn lemma_recorded_agent_read_back(
    es: Entries,
    id: Seq<char>,
    agent: AgentConfigView,
    other: Seq<char>,
)
    requires
        keys_distinct(es),
    ensures
        config_from_json(config_json(entries_insert(es, id, agent))) is Ok,
        entries_map(config_from_json(config_json(entries_insert(es, id, agent)))->Ok_0)[id] == agent,
        entries_map(config_from_json(config_json(entries_insert(es, id, agent)))->Ok_0).contains_key(id),
        other != id ==> entries_map(
            config_from_json(config_json(entries_insert(es, id, agent)))->Ok_0,
        ).contains_key(other) == entries_map(es).contains_key(other),
        other != id && entries_map(es).contains_key(other) ==> entries_map(
            config_from_json(config_json(entries_insert(es, id, agent)))->Ok_0,
        )[other] == entries_map(es)[other],
{
    lemma_entries_insert(es, id, agent);
    lemma_config_json_roundtrip(entries_insert(es, id, agent));
}

} // verus!
