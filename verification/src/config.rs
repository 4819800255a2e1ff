//! Agent configuration: which Hindsight bank and API each agent uses, the
//! table of configured agents, and the JSON form in which the table is kept
//! on disk.

use vstd::prelude::*;
use vstd::string::*;

use crate::text::{join, join_strings, views_of};

verus! {

broadcast use vstd::string::group_string_axioms;

/// How one agent reaches Hindsight.
#[derive(Debug)]
pub struct AgentConfig {
    pub bank_id: String,
    pub api_url: String,
    pub api_token: Option<String>,
    pub harness: String,
    pub workspace: Option<String>,
}

/// The value of an [`AgentConfig`].
pub struct AgentConfigView {
    pub bank_id: Seq<char>,
    pub api_url: Seq<char>,
    pub api_token: Option<Seq<char>>,
    pub harness: Seq<char>,
    pub workspace: Option<Seq<char>>,
}

/// The view of an optional string.
pub open spec fn opt_text(o: Option<String>) -> Option<Seq<char>> {
    match o {
        Some(s) => Some(s@),
        None => None,
    }
}

impl View for AgentConfig {
    type V = AgentConfigView;

    open spec fn view(&self) -> AgentConfigView {
        AgentConfigView {
            bank_id: self.bank_id@,
            api_url: self.api_url@,
            api_token: opt_text(self.api_token),
            harness: self.harness@,
            workspace: opt_text(self.workspace),
        }
    }
}

/// A copy of an optional string.
pub fn clone_opt_text(o: &Option<String>) -> (r: Option<String>)
    ensures
        opt_text(r) == opt_text(*o),
{
    match o {
        Some(s) => Some(s.clone()),
        None => None,
    }
}

/// An optional string made from an optional string slice.
pub fn opt_string(o: Option<&str>) -> (r: Option<String>)
    ensures
        opt_text(r) == match o {
            Some(s) => Some(s@),
            None => None::<Seq<char>>,
        },
{
    match o {
        Some(s) => Some(String::from_str(s)),
        None => None,
    }
}

impl Clone for AgentConfig {
    fn clone(&self) -> (r: Self)
        ensures
            r@ == self@,
    {
        AgentConfig {
            bank_id: self.bank_id.clone(),
            api_url: self.api_url.clone(),
            api_token: clone_opt_text(&self.api_token),
            harness: self.harness.clone(),
            workspace: clone_opt_text(&self.workspace),
        }
    }
}

impl AgentConfig {
    /// The configuration that setting an agent up records: the given bank,
    /// API address, token and harness, and no workspace.
    pub fn new(bank_id: &str, api_url: &str, api_token: Option<&str>, harness: &str) -> (r: AgentConfig)
        ensures
            r@ == (AgentConfigView {
                bank_id: bank_id@,
                api_url: api_url@,
                api_token: match api_token {
                    Some(t) => Some(t@),
                    None => None,
                },
                harness: harness@,
                workspace: None,
            }),
    {
        AgentConfig {
            bank_id: String::from_str(bank_id),
            api_url: String::from_str(api_url),
            api_token: opt_string(api_token),
            harness: String::from_str(harness),
            workspace: None,
        }
    }
}

// ── The table of agents ─────────────────────────────────

/// The entries of an agent table: agent id and configuration, in order.
pub type Entries = Seq<(Seq<char>, AgentConfigView)>;

/// The agent ids of `es`, in order.
pub open spec fn keys_of(es: Entries) -> Seq<Seq<char>> {
    es.map_values(|e: (Seq<char>, AgentConfigView)| e.0)
}

/// No agent id occurs twice in `es`.
pub open spec fn keys_distinct(es: Entries) -> bool {
    forall|i: int, j: int| 0 <= i < j < es.len() ==> #[trigger] es[i].0 != #[trigger] es[j].0
}

/// Whether `es` has an entry for `id`.
pub open spec fn has_key(es: Entries, id: Seq<char>) -> bool {
    exists|i: int| 0 <= i < es.len() && #[trigger] es[i].0 == id
}

/// `es` with `id` bound to `agent`: the entry of `id` is replaced where there
/// is one, and a new entry is added at the end where there is none.
pub open spec fn entries_insert(es: Entries, id: Seq<char>, agent: AgentConfigView) -> Entries {
    if has_key(es, id) {
        es.update(choose|i: int| 0 <= i < es.len() && #[trigger] es[i].0 == id, (id, agent))
    } else {
        es.push((id, agent))
    }
}

/// The map from agent id to configuration that `es` describes; a later
/// entry for an id wins over an earlier one.
pub open spec fn entries_map(es: Entries) -> Map<Seq<char>, AgentConfigView>
    decreases es.len(),
{
    if es.len() == 0 {
        Map::empty()
    } else {
        entries_map(es.drop_last()).insert(es.last().0, es.last().1)
    }
}

/// The ids that an entry table maps are those that it has entries for.
pub proof fn lemma_entries_map_domain(es: Entries, id: Seq<char>)
    ensures
        entries_map(es).contains_key(id) <==> has_key(es, id),
    decreases es.len(),
{
    if es.len() > 0 {
        lemma_entries_map_domain(es.drop_last(), id);
        if has_key(es.drop_last(), id) {
            let i: int = choose|i: int| 0 <= i < es.drop_last().len() && #[trigger] es.drop_last()[i].0 == id;
            assert(es[i].0 == id);
        }
        if has_key(es, id) && es.last().0 != id {
            let i: int = choose|i: int| 0 <= i < es.len() && #[trigger] es[i].0 == id;
            assert(es.drop_last()[i].0 == id);
        }
        if es.last().0 == id {
            assert(es[es.len() - 1].0 == id);
        }
    }
}

/// In a table without repeated ids, the map gives each entry's id that
/// entry's configuration.
pub proof fn lemma_entries_map_value(es: Entries, i: int)
    requires
        keys_distinct(es),
        0 <= i < es.len(),
    ensures
        entries_map(es).contains_key(es[i].0),
        entries_map(es)[es[i].0] == es[i].1,
    decreases es.len(),
{
    if i < es.len() - 1 {
        let rest = es.drop_last();
        assert(rest[i] == es[i]);
        assert(keys_distinct(rest)) by {
            assert forall|a: int, b: int| 0 <= a < b < rest.len() implies #[trigger] rest[a].0
                != #[trigger] rest[b].0 by {
                assert(rest[a] == es[a] && rest[b] == es[b]);
            }
        }
        lemma_entries_map_value(rest, i);
        assert(es[i].0 != es[es.len() - 1].0);
    }
}

/// Binding an id in a table without repeated ids keeps it without repeated
/// ids, and binds the id in the map that it describes.
pub proof fn lemma_entries_insert(es: Entries, id: Seq<char>, agent: AgentConfigView)
    requires
        keys_distinct(es),
    ensures
        keys_distinct(entries_insert(es, id, agent)),
        entries_map(entries_insert(es, id, agent)) == entries_map(es).insert(id, agent),
        keys_of(entries_insert(es, id, agent)) == if has_key(es, id) {
            keys_of(es)
        } else {
            keys_of(es).push(id)
        },
{
    let new = entries_insert(es, id, agent);
    if has_key(es, id) {
        let k: int = choose|i: int| 0 <= i < es.len() && #[trigger] es[i].0 == id;
        assert(keys_distinct(new)) by {
            assert forall|a: int, b: int| 0 <= a < b < new.len() implies #[trigger] new[a].0
                != #[trigger] new[b].0 by {
                assert(new[a].0 == es[a].0);
                assert(new[b].0 == es[b].0);
            }
        }
        assert(keys_of(new) =~= keys_of(es)) by {
            assert forall|a: int| 0 <= a < new.len() implies keys_of(new)[a] == keys_of(es)[a] by {
                assert(new[a].0 == es[a].0);
            }
        }
        assert forall|x: Seq<char>| #![trigger entries_map(new).contains_key(x)]
            entries_map(new).contains_key(x) == entries_map(es).insert(id, agent).contains_key(x)
            && (entries_map(new).contains_key(x) ==> entries_map(new)[x] == entries_map(es).insert(
                id,
                agent,
            )[x]) by {
            lemma_entries_map_domain(new, x);
            lemma_entries_map_domain(es, x);
            if x == id {
                assert(new[k].0 == id);
                lemma_entries_map_value(new, k);
            } else {
                if has_key(es, x) {
                    let j: int = choose|j: int| 0 <= j < es.len() && #[trigger] es[j].0 == x;
                    assert(new[j] == es[j]);
                    lemma_entries_map_value(new, j);
                    lemma_entries_map_value(es, j);
                }
                if has_key(new, x) {
                    let j: int = choose|j: int| 0 <= j < new.len() && #[trigger] new[j].0 == x;
                    assert(new[j] == es[j]);
                }
            }
        }
        assert(entries_map(new) =~= entries_map(es).insert(id, agent));
    } else {
        assert(new.drop_last() =~= es);
        assert(keys_distinct(new)) by {
            assert forall|a: int, b: int| 0 <= a < b < new.len() implies #[trigger] new[a].0
                != #[trigger] new[b].0 by {
                if b == new.len() - 1 {
                    assert(new[a] == es[a]);
                    if es[a].0 == id {
                        assert(has_key(es, id));
                    }
                } else {
                    assert(new[a] == es[a] && new[b] == es[b]);
                }
            }
        }
        assert(keys_of(new) =~= keys_of(es).push(id));
    }
}

/// The configured agents, each under its id, with no id twice.
#[derive(Debug)]
pub struct AgentMap {
    entries: Vec<(String, AgentConfig)>,
}

impl View for AgentMap {
    type V = Entries;

    closed spec fn view(&self) -> Entries {
        self.entries@.map_values(|e: (String, AgentConfig)| (e.0@, e.1@))
    }
}

impl AgentMap {
    #[verifier::type_invariant]
    closed spec fn wf(self) -> bool {
        keys_distinct(self@)
    }

    /// An empty table.
    pub fn new() -> (r: AgentMap)
        ensures
            r@ == Seq::<(Seq<char>, AgentConfigView)>::empty(),
    {
        let r = AgentMap { entries: Vec::new() };
        assert(r@ =~= Seq::<(Seq<char>, AgentConfigView)>::empty());
        r
    }

    /// The number of agents.
    pub fn len(&self) -> (r: usize)
        ensures
            r == self@.len(),
    {
        self.entries.len()
    }

    /// Whether no agent is configured.
    pub fn is_empty(&self) -> (r: bool)
        ensures
            r == (self@.len() == 0),
    {
        self.entries.len() == 0
    }

    /// Where `id` stands in the table, if anywhere.
    fn position(&self, id: &String) -> (r: Option<usize>)
        ensures
            match r {
                Some(i) => i < self@.len() && self@[i as int].0 == id@,
                None => !has_key(self@, id@),
            },
    {
        let mut i: usize = 0;
        while i < self.entries.len()
            invariant
                i <= self.entries@.len(),
                self@.len() == self.entries@.len(),
                forall|j: int| 0 <= j < i ==> #[trigger] self@[j].0 != id@,
            decreases self.entries.len() - i,
        {
            assert(self@[i as int].0 == self.entries@[i as int].0@);
            if self.entries[i].0 == *id {
                return Some(i);
            }
            i = i + 1;
        }
        None
    }

    /// The configuration of agent `id`, if there is one.
    pub fn get(&self, id: &str) -> (r: Option<&AgentConfig>)
        ensures
            match r {
                Some(a) => entries_map(self@).contains_key(id@) && a@ == entries_map(self@)[id@],
                None => !entries_map(self@).contains_key(id@),
            },
    {
        proof {
            use_type_invariant(self);
            lemma_entries_map_domain(self@, id@);
        }
        let key = String::from_str(id);
        match self.position(&key) {
            Some(i) => {
                proof {
                    lemma_entries_map_value(self@, i as int);
                }
                Some(&self.entries[i].1)
            },
            None => None,
        }
    }

    /// Binds `id` to `agent`, in place of any earlier configuration of `id`.
    pub fn insert(&mut self, id: String, agent: AgentConfig)
        ensures
            final(self)@ == entries_insert(old(self)@, id@, agent@),
            keys_distinct(final(self)@),
            entries_map(final(self)@) == entries_map(old(self)@).insert(id@, agent@),
    {
        proof {
            use_type_invariant(&*self);
            lemma_entries_insert(self@, id@, agent@);
        }
        let ghost before = self@;
        let found = self.position(&id);
        let mut entries: Vec<(String, AgentConfig)> = Vec::new();
        std::mem::swap(&mut entries, &mut self.entries);
        let ghost key = id@;
        let ghost value = agent@;
        match found {
            Some(i) => {
                entries.set(i, (id, agent));
                proof {
                    let k: int = choose|k: int| 0 <= k < before.len() && #[trigger] before[k].0 == key;
                    if k != i {
                        assert(before[i as int].0 == key);
                    }
                    assert(entries@.map_values(|e: (String, AgentConfig)| (e.0@, e.1@)) =~= before.update(
                        i as int,
                        (key, value),
                    ));
                }
            },
            None => {
                entries.push((id, agent));
                assert(entries@.map_values(|e: (String, AgentConfig)| (e.0@, e.1@)) =~= before.push(
                    (key, value),
                ));
            },
        }
        self.entries = entries;
    }

    /// The entry at position `i`: an agent id and its configuration.
    pub fn entry_at(&self, i: usize) -> (r: (&String, &AgentConfig))
        requires
            i < self@.len(),
        ensures
            r.0@ == self@[i as int].0,
            r.1@ == self@[i as int].1,
    {
        let e = &self.entries[i];
        (&e.0, &e.1)
    }

    /// The agent ids, in table order.
    pub fn keys(&self) -> (r: Vec<String>)
        ensures
            views_of(r@) == keys_of(self@),
    {
        let mut r: Vec<String> = Vec::new();
        let mut i: usize = 0;
        while i < self.entries.len()
            invariant
                i <= self.entries@.len(),
                self@.len() == self.entries@.len(),
                views_of(r@) == keys_of(self@).take(i as int),
            decreases self.entries.len() - i,
        {
            assert(self@[i as int].0 == self.entries@[i as int].0@);
            let k = self.entries[i].0.clone();
            r.push(k);
            assert(views_of(r@) =~= views_of(r@.drop_last()).push(k@));
            assert(keys_of(self@).take(i + 1) =~= keys_of(self@).take(i as int).push(self@[i as int].0));
            i = i + 1;
            assert(views_of(r@) =~= keys_of(self@).take(i as int));
        }
        assert(keys_of(self@).take(i as int) =~= keys_of(self@));
        r
    }
}

// ── Looking an agent up ─────────────────────────────────

/// How a missing agent's error names the agents that are there.
pub open spec fn available_text(ids: Seq<Seq<char>>) -> Seq<char> {
    if ids.len() == 0 {
        "(none)"@
    } else {
        join(ids, ", "@)
    }
}

/// What can go wrong with the configuration.
#[derive(Debug)]
pub enum ConfigError {
    /// No agent is configured under `agent_id`; `available` lists those that
    /// are.
    AgentNotFound { agent_id: String, available: String },
}

/// The message that reports that agent `id` is missing, `available` listing
/// those that are configured.
pub open spec fn not_found_message(id: Seq<char>, available: Seq<char>) -> Seq<char> {
    "Agent '"@ + id + "' not found. Run 'hindsight-agent setup "@ + id + "' first.\nAvailable agents: "@
        + available
}

impl ConfigError {
    /// The message that reports this error.
    pub fn message(&self) -> (r: String)
        ensures
            match self {
                ConfigError::AgentNotFound { agent_id, available } => r@ == not_found_message(
                    agent_id@,
                    available@,
                ),
            },
    {
        match self {
            ConfigError::AgentNotFound { agent_id, available } => {
                let mut r = String::from_str("Agent '");
                r.append(agent_id.as_str());
                r.append("' not found. Run 'hindsight-agent setup ");
                r.append(agent_id.as_str());
                r.append("' first.\nAvailable agents: ");
                r.append(available.as_str());
                r
            },
        }
    }
}

/// All configured agents.
#[derive(Debug)]
pub struct Config {
    pub agents: AgentMap,
}

impl Config {
    /// The configuration of agent `agent_id`, or an error that names the
    /// agents that are configured.
    pub fn get_agent(&self, agent_id: &str) -> (r: Result<&AgentConfig, ConfigError>)
        ensures
            match r {
                Ok(a) => entries_map(self.agents@).contains_key(agent_id@) && a@ == entries_map(
                    self.agents@,
                )[agent_id@],
                Err(ConfigError::AgentNotFound { agent_id: id, available }) => {
                    &&& !entries_map(self.agents@).contains_key(agent_id@)
                    &&& id@ == agent_id@
                    &&& available@ == available_text(keys_of(self.agents@))
                },
            },
    {
        match self.agents.get(agent_id) {
            Some(a) => Ok(a),
            None => {
                let available = if self.agents.is_empty() {
                    String::from_str("(none)")
                } else {
                    let keys = self.agents.keys();
                    join_strings(keys.as_slice(), ", ")
                };
                Err(ConfigError::AgentNotFound { agent_id: String::from_str(agent_id), available })
            },
        }
    }
}

/// After an agent is recorded under an id, looking that id up gives the
/// agent, and looking up any other id gives what it gave before.
pub proof fn lemma_lookup_after_insert(es: Entries, id: Seq<char>, agent: AgentConfigView, other: Seq<char>)
    requires
        keys_distinct(es),
    ensures
        entries_map(entries_insert(es, id, agent)).contains_key(id),
        entries_map(entries_insert(es, id, agent))[id] == agent,
        other != id ==> (entries_map(entries_insert(es, id, agent)).contains_key(other)
            == entries_map(es).contains_key(other)),
        other != id && entries_map(es).contains_key(other) ==> entries_map(
            entries_insert(es, id, agent),
        )[other] == entries_map(es)[other],
{
    lemma_entries_insert(es, id, agent);
}

} // verus!
