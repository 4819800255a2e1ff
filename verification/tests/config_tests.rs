use hindsight_agent::config::{AgentConfig, AgentMap, Config, ConfigError};
use hindsight_agent::config_json::{AgentField, ConfigFormatError, FieldError};
use hindsight_agent::json::Json;

fn agent(bank_id: &str, api_url: &str, api_token: Option<&str>, harness: &str) -> AgentConfig {
    AgentConfig {
        bank_id: bank_id.to_string(),
        api_url: api_url.to_string(),
        api_token: api_token.map(|t| t.to_string()),
        harness: harness.to_string(),
        workspace: None,
    }
}

fn object(members: Vec<(&str, Json)>) -> Json {
    Json::Object(members.into_iter().map(|(k, v)| (k.to_string(), v)).collect())
}

fn text(s: &str) -> Json {
    Json::Str(s.to_string())
}

#[test]
fn test_roundtrip() {
    let mut config = Config { agents: AgentMap::new() };
    config.agents.insert(
        "test-agent".to_string(),
        AgentConfig {
            bank_id: "test-bank".to_string(),
            api_url: "http://localhost:8888".to_string(),
            api_token: None,
            harness: "hermes".to_string(),
            workspace: None,
        },
    );
    let json = config.to_json();
    let parsed = Config::from_json(&json).unwrap();
    assert_eq!(parsed.agents.len(), 1);
    assert_eq!(parsed.agents.get("test-agent").unwrap().bank_id, "test-bank");
}

#[test]
fn test_get_agent_not_found() {
    let config = Config { agents: AgentMap::new() };
    let result = config.get_agent("missing");
    assert!(result.is_err());
}

#[test]
fn test_api_token_omitted_when_none() {
    let agent = AgentConfig {
        bank_id: "b".to_string(),
        api_url: "http://localhost".to_string(),
        api_token: None,
        harness: "hermes".to_string(),
        workspace: None,
    };
    let json = agent.to_json();
    assert!(json.get_member("api_token").is_none());
}

#[test]
fn api_token_written_when_present() {
    let a = agent("b", "http://localhost", Some("secret"), "hermes");
    let json = a.to_json();
    assert_eq!(json.get_member("api_token"), Some(&text("secret")));
    assert!(json.get_member("workspace").is_none());
    match &json {
        Json::Object(members) => {
            let keys: Vec<&str> = members.iter().map(|(k, _)| k.as_str()).collect();
            assert_eq!(keys, vec!["bank_id", "api_url", "api_token", "harness"]);
        }
        _ => panic!("not an object"),
    }
}

#[test]
fn get_agent_found_after_insert() {
    let mut config = Config { agents: AgentMap::new() };
    config.agents.insert("a".to_string(), agent("bank-a", "http://x", None, "hermes"));
    config.agents.insert("b".to_string(), agent("bank-b", "http://y", None, "openclaw"));
    let found = config.get_agent("b").unwrap();
    assert_eq!(found.bank_id, "bank-b");
    assert_eq!(found.harness, "openclaw");
    assert_eq!(config.get_agent("a").unwrap().api_url, "http://x");
}

#[test]
fn insert_replaces_existing_agent() {
    let mut agents = AgentMap::new();
    agents.insert("a".to_string(), agent("first", "http://x", None, "hermes"));
    agents.insert("b".to_string(), agent("other", "http://x", None, "hermes"));
    agents.insert("a".to_string(), agent("second", "http://x", None, "hermes"));
    assert_eq!(agents.len(), 2);
    assert_eq!(agents.get("a").unwrap().bank_id, "second");
    assert_eq!(agents.keys(), vec!["a".to_string(), "b".to_string()]);
}

#[test]
fn missing_agent_error_lists_agents() {
    let mut config = Config { agents: AgentMap::new() };
    config.agents.insert("alpha".to_string(), agent("b1", "http://x", None, "hermes"));
    config.agents.insert("beta".to_string(), agent("b2", "http://x", None, "hermes"));
    let err = config.get_agent("gamma").unwrap_err();
    match &err {
        ConfigError::AgentNotFound { agent_id, available } => {
            assert_eq!(agent_id, "gamma");
            assert_eq!(available, "alpha, beta");
        }
    }
    assert_eq!(
        err.message(),
        "Agent 'gamma' not found. Run 'hindsight-agent setup gamma' first.\nAvailable agents: alpha, beta"
    );
}

#[test]
fn missing_agent_error_with_no_agents_says_none() {
    let config = Config { agents: AgentMap::new() };
    match config.get_agent("missing").unwrap_err() {
        ConfigError::AgentNotFound { available, .. } => assert_eq!(available, "(none)"),
    }
}

#[test]
fn config_from_json_reads_optional_fields() {
    let json = object(vec![(
        "agents",
        object(vec![(
            "x",
            object(vec![
                ("bank_id", text("bank")),
                ("api_url", text("http://h")),
                ("api_token", Json::Null),
                ("harness", text("hermes")),
                ("workspace", text("/w")),
                ("extra", Json::UInt(3)),
            ]),
        )]),
    )]);
    let config = Config::from_json(&json).unwrap();
    let a = config.get_agent("x").unwrap();
    assert_eq!(a.api_token, None);
    assert_eq!(a.workspace, Some("/w".to_string()));
}

#[test]
fn config_from_json_errors() {
    assert!(matches!(Config::from_json(&Json::Null), Err(ConfigFormatError::NotAStruct)));
    assert!(matches!(
        Config::from_json(&object(vec![])),
        Err(ConfigFormatError::MissingAgents)
    ));
    assert!(matches!(
        Config::from_json(&object(vec![("agents", Json::Array(vec![]))])),
        Err(ConfigFormatError::AgentsNotAnObject)
    ));
    let missing_url = object(vec![(
        "agents",
        object(vec![("x", object(vec![("bank_id", text("b")), ("harness", text("h"))]))]),
    )]);
    match Config::from_json(&missing_url) {
        Err(ConfigFormatError::InvalidAgent { agent_id, problem }) => {
            assert_eq!(agent_id, "x");
            assert_eq!(problem, FieldError::Missing(AgentField::ApiUrl));
        }
        other => panic!("unexpected {:?}", other),
    }
    let wrong_token = object(vec![(
        "agents",
        object(vec![(
            "y",
            object(vec![
                ("bank_id", text("b")),
                ("api_url", text("u")),
                ("api_token", Json::UInt(7)),
                ("harness", text("h")),
            ]),
        )]),
    )]);
    match Config::from_json(&wrong_token) {
        Err(ConfigFormatError::InvalidAgent { problem, .. }) => {
            assert_eq!(problem, FieldError::WrongType(AgentField::ApiToken))
        }
        other => panic!("unexpected {:?}", other),
    }
    assert_eq!(AgentConfig::from_json(&text("x")).unwrap_err(), FieldError::NotAStruct);
}

#[test]
fn config_json_roundtrip_keeps_order_and_fields() {
    let mut config = Config { agents: AgentMap::new() };
    config.agents.insert("z".to_string(), agent("bz", "http://z/", Some("tok"), "openclaw"));
    config.agents.insert("a".to_string(), agent("ba", "http://a", None, "hermes"));
    let parsed = Config::from_json(&config.to_json()).unwrap();
    assert_eq!(parsed.agents.keys(), vec!["z".to_string(), "a".to_string()]);
    let z = parsed.agents.get("z").unwrap();
    assert_eq!(z.api_token, Some("tok".to_string()));
    assert_eq!(z.api_url, "http://z/");
    assert_eq!(parsed.agents.get("a").unwrap().api_token, None);
}

#[test]
fn agent_config_new_has_no_workspace() {
    let a = AgentConfig::new("bank", "http://h", Some("t"), "hermes");
    assert_eq!(a.bank_id, "bank");
    assert_eq!(a.api_token, Some("t".to_string()));
    assert_eq!(a.workspace, None);
}

#[test]
fn recorded_agent_is_read_back_from_file_form() {
    let mut config = Config { agents: AgentMap::new() };
    config.agents.insert("keep".to_string(), agent("k", "http://k", None, "hermes"));
    config.agents.insert("new".to_string(), agent("old", "http://o", None, "hermes"));
    let mut reread = Config::from_json(&config.to_json()).unwrap();
    reread.agents.insert("new".to_string(), agent("fresh", "http://f", Some("t"), "openclaw"));
    let back = Config::from_json(&reread.to_json()).unwrap();
    let found = back.get_agent("new").unwrap();
    assert_eq!(found.bank_id, "fresh");
    assert_eq!(found.api_token, Some("t".to_string()));
    assert_eq!(back.get_agent("keep").unwrap().bank_id, "k");
    assert_eq!(back.agents.len(), 2);
}

#[test]
fn config_in_array_form() {
    let agent_array = Json::Array(vec![text("b"), text("http://u"), Json::Null, text("hermes"), text("/w")]);
    let json = Json::Array(vec![object(vec![("x", agent_array)])]);
    let config = Config::from_json(&json).unwrap();
    let a = config.get_agent("x").unwrap();
    assert_eq!(a.bank_id, "b");
    assert_eq!(a.api_token, None);
    assert_eq!(a.workspace, Some("/w".to_string()));
    assert!(matches!(Config::from_json(&Json::Array(vec![])), Err(ConfigFormatError::WrongLength)));
    assert!(matches!(
        Config::from_json(&Json::Array(vec![Json::Array(vec![])])),
        Err(ConfigFormatError::AgentsNotAnObject)
    ));
    let short = Json::Array(vec![text("b"), text("u"), Json::Null, text("h")]);
    assert_eq!(AgentConfig::from_json(&short).unwrap_err(), FieldError::WrongLength);
    let wrong = Json::Array(vec![text("b"), Json::UInt(1), Json::Null, text("h"), Json::Null]);
    assert_eq!(AgentConfig::from_json(&wrong).unwrap_err(), FieldError::WrongType(AgentField::ApiUrl));
}

#[test]
fn duplicated_fields_are_refused() {
    let agent_twice = object(vec![
        ("bank_id", text("b")),
        ("api_url", text("u")),
        ("harness", text("h")),
        ("bank_id", text("c")),
    ]);
    assert_eq!(
        AgentConfig::from_json(&agent_twice).unwrap_err(),
        FieldError::Duplicate(AgentField::BankId)
    );
    let extra_twice = object(vec![
        ("bank_id", text("b")),
        ("api_url", text("u")),
        ("harness", text("h")),
        ("note", text("1")),
        ("note", text("2")),
    ]);
    assert!(AgentConfig::from_json(&extra_twice).is_ok());
    let agents_twice = object(vec![("agents", object(vec![])), ("agents", object(vec![]))]);
    assert!(matches!(Config::from_json(&agents_twice), Err(ConfigFormatError::DuplicateAgents)));
    // the same agent id twice: the later one is kept
    let ids_twice = object(vec![(
        "agents",
        object(vec![
            ("x", object(vec![("bank_id", text("1")), ("api_url", text("u")), ("harness", text("h"))])),
            ("x", object(vec![("bank_id", text("2")), ("api_url", text("u")), ("harness", text("h"))])),
        ]),
    )]);
    let config = Config::from_json(&ids_twice).unwrap();
    assert_eq!(config.agents.len(), 1);
    assert_eq!(config.get_agent("x").unwrap().bank_id, "2");
}
