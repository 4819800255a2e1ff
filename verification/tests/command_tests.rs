use hindsight_agent::commands::{
    document_id_for_title, harness_of, hermes_profile_args, hermes_provider_args, ingest_source,
    openclaw_add_args, openclaw_agent_exists, openclaw_list_args, operation_label,
    profile_status, process_succeeded, ready_hint, require_ingest_content, require_retain_content,
    require_update_fields, retain_source, first_setup_step, next_setup_step, CommandError,
    ContentSource, Harness, ProcessOutcome, ProfileStatus, SetupPlan, SetupStep,
};
use hindsight_agent::api::HindsightClient;
use hindsight_agent::config::AgentConfig;
use hindsight_agent::content_dir::{content_file_retain, extension, is_content_file_name, select_content_files, stem, text_less};
use hindsight_agent::json::Json;
use hindsight_agent::text::{is_blank, is_white_space_char, trim_end_char_in};

fn object(members: Vec<(&str, Json)>) -> Json {
    Json::Object(members.into_iter().map(|(k, v)| (k.to_string(), v)).collect())
}

fn text(s: &str) -> Json {
    Json::Str(s.to_string())
}

#[test]
fn content_sources() {
    assert!(matches!(ingest_source(Some("f.md"), Some("x")), ContentSource::File(p) if p == "f.md"));
    assert!(matches!(ingest_source(None, Some("x")), ContentSource::Inline(c) if c == "x"));
    assert!(matches!(ingest_source(None, None), ContentSource::Stdin));
    assert!(matches!(retain_source(Some("in")), ContentSource::File(p) if p == "in"));
    assert!(matches!(retain_source(None), ContentSource::Stdin));
}

#[test]
fn blank_content_is_refused() {
    assert_eq!(require_ingest_content(""), Err(CommandError::NoContent));
    assert_eq!(require_ingest_content(" \n\t\u{3000}"), Err(CommandError::NoContent));
    assert_eq!(require_ingest_content(" a "), Ok(()));
    assert_eq!(require_retain_content("\r\n"), Err(CommandError::NothingToRetain));
    assert_eq!(require_retain_content("x"), Ok(()));
    assert_eq!(CommandError::NothingToRetain.message(), "No content to retain.");
    assert!(is_blank("\u{a0}\u{2028}"));
    assert!(!is_blank("\u{200b}"));
}

#[test]
fn update_needs_a_field() {
    assert_eq!(require_update_fields(None, None), Err(CommandError::NoUpdateFields));
    assert_eq!(require_update_fields(Some("n"), None), Ok(()));
    assert_eq!(require_update_fields(None, Some("q")), Ok(()));
    assert_eq!(
        CommandError::NoUpdateFields.message(),
        "At least one of --name or --source-query must be provided"
    );
}

#[test]
fn document_id_is_lowercase_slug() {
    assert_eq!(document_id_for_title("My Great Title"), "my-great-title");
    assert_eq!(document_id_for_title("ÀB C"), "àb-c");
    assert_eq!(document_id_for_title(""), "");
}

#[test]
fn trims_trailing_slashes_only() {
    assert_eq!(trim_end_char_in("http://a/b///", '/'), "http://a/b");
    assert_eq!(trim_end_char_in("///", '/'), "");
    assert_eq!(trim_end_char_in("/a", '/'), "/a");
}

#[test]
fn harness_and_hints() {
    assert_eq!(harness_of("hermes"), Harness::Hermes);
    assert_eq!(harness_of("openclaw"), Harness::OpenClaw);
    assert_eq!(harness_of("Hermes"), Harness::Other);
    assert_eq!(ready_hint(Harness::Hermes, "default").unwrap(), "  Start chatting: hermes");
    assert_eq!(ready_hint(Harness::Hermes, "bob").unwrap(), "  Start chatting: hermes --profile bob");
    assert_eq!(
        ready_hint(Harness::OpenClaw, "bob").unwrap(),
        "  Restart your openclaw gateway to pick up the new agent."
    );
    assert!(ready_hint(Harness::Other, "bob").is_none());
}

#[test]
fn hermes_arguments() {
    assert!(hermes_profile_args("default").is_none());
    assert_eq!(
        hermes_profile_args("bob").unwrap(),
        vec!["profile", "create", "bob", "--clone", "--no-alias"]
    );
    assert_eq!(
        hermes_provider_args("default"),
        vec!["config", "set", "memory.provider", "hindsight_agent"]
    );
    assert_eq!(
        hermes_provider_args("bob"),
        vec!["--profile", "bob", "config", "set", "memory.provider", "hindsight_agent"]
    );
}

#[test]
fn hermes_profile_outcomes() {
    assert_eq!(profile_status(&ProcessOutcome::NotStarted), ProfileStatus::HermesMissing);
    let ok = ProcessOutcome::Finished { success: true, stderr: String::new() };
    assert_eq!(profile_status(&ok), ProfileStatus::Created);
    let exists = ProcessOutcome::Finished {
        success: false,
        stderr: "Error: Profile 'bob' ALREADY EXISTS".to_string(),
    };
    assert_eq!(profile_status(&exists), ProfileStatus::AlreadyExisted);
    let other = ProcessOutcome::Finished { success: false, stderr: "boom".to_string() };
    assert_eq!(profile_status(&other), ProfileStatus::CreateManually);
    assert!(process_succeeded(&ok));
    assert!(!process_succeeded(&other));
    assert!(!process_succeeded(&ProcessOutcome::NotStarted));
}

#[test]
fn openclaw_listing() {
    assert_eq!(openclaw_list_args(), vec!["agents", "list", "--json"]);
    assert_eq!(openclaw_add_args("bob"), vec!["agents", "add", "bob", "--non-interactive"]);
    let listing = object(vec![(
        "agents",
        Json::Array(vec![object(vec![("name", text("alice"))]), object(vec![("name", text("bob"))])]),
    )]);
    assert!(openclaw_agent_exists(Some(&listing), "bob"));
    assert!(!openclaw_agent_exists(Some(&listing), "carol"));
    assert!(!openclaw_agent_exists(None, "bob"));
    assert!(!openclaw_agent_exists(Some(&object(vec![("agents", text("bob"))])), "bob"));
}

#[test]
fn operation_labels() {
    assert_eq!(operation_label(&object(vec![("operation_id", text("op-1"))])), "op-1");
    assert_eq!(operation_label(&object(vec![("operation_id", Json::UInt(1))])), "queued");
    assert_eq!(operation_label(&Json::Null), "queued");
    let twice = object(vec![("operation_id", text("op-1")), ("operation_id", text("op-2"))]);
    assert_eq!(operation_label(&twice), "op-2");
    assert_eq!(twice.get_member("operation_id"), Some(&text("op-2")));
    assert_eq!(twice.get_member("missing"), None);
}

#[test]
fn file_extensions_and_stems() {
    assert_eq!(extension("notes.md"), Some("md".to_string()));
    assert_eq!(extension("a.tar.gz"), Some("gz".to_string()));
    assert_eq!(extension(".bashrc"), None);
    assert_eq!(extension("README"), None);
    assert_eq!(extension("..md"), Some("md".to_string()));
    assert_eq!(extension("x."), Some(String::new()));
    assert_eq!(stem("notes.md"), "notes");
    assert_eq!(stem("a.tar.gz"), "a.tar");
    assert_eq!(stem(".bashrc"), ".bashrc");
    assert_eq!(stem("README"), "README");
    assert!(is_content_file_name("a.md"));
    assert!(is_content_file_name("a.json"));
    assert!(!is_content_file_name("a.MD"));
    assert!(!is_content_file_name("a.pdf"));
    assert!(!is_content_file_name(".md"));
}

#[test]
fn content_files_are_selected_and_sorted() {
    let names: Vec<String> = ["b.txt", "image.png", "a.md", "C.csv", "a.html", ".hidden.md", "noext"]
        .iter()
        .map(|s| s.to_string())
        .collect();
    let chosen = select_content_files(&names);
    assert_eq!(chosen, vec![".hidden.md", "C.csv", "a.html", "a.md", "b.txt"]);
    assert!(text_less("a", "ab"));
    assert!(!text_less("b", "ab"));
    assert!(!text_less("a", "a"));
}

#[test]
fn content_file_retains_under_stem() {
    let config = AgentConfig::new("bank", "http://h", None, "hermes");
    let client = HindsightClient::from_agent(&config).unwrap();
    assert!(content_file_retain(&client, "notes.md", " \n ").is_none());
    let call = content_file_retain(&client, "notes.md", "hello").unwrap();
    assert_eq!(call.request.url, "http://h/v1/default/banks/bank/memories");
    let body = call.request.body.unwrap();
    let items = body.get_member("items").unwrap().as_items().unwrap();
    assert_eq!(items[0].get_member("document_id"), Some(&text("notes")));
    assert_eq!(items[0].get_member("content"), Some(&text("hello")));
}

fn walk(plan: SetupPlan) -> Vec<SetupStep> {
    let mut steps = Vec::new();
    let mut step = Some(first_setup_step());
    while let Some(s) = step {
        steps.push(s);
        step = next_setup_step(plan, s, true);
    }
    steps
}

#[test]
fn setup_steps_in_order() {
    let plan = SetupPlan { template: true, content: true, harness: Harness::Hermes };
    assert_eq!(
        walk(plan),
        vec![
            SetupStep::CheckHealth,
            SetupStep::ImportTemplate,
            SetupStep::IngestContent,
            SetupStep::SaveConfig,
            SetupStep::ConfigureHarness(Harness::Hermes),
            SetupStep::Finish,
        ]
    );
    let plan = SetupPlan { template: false, content: false, harness: Harness::Other };
    assert_eq!(
        walk(plan),
        vec![
            SetupStep::CheckHealth,
            SetupStep::EnsureBank,
            SetupStep::SaveConfig,
            SetupStep::ConfigureHarness(Harness::Other),
            SetupStep::Finish,
        ]
    );
}

#[test]
fn failed_setup_step_ends_setup() {
    let plan = SetupPlan { template: false, content: true, harness: Harness::OpenClaw };
    for step in walk(plan) {
        assert_eq!(next_setup_step(plan, step, false), None);
    }
    // A failed health check never reaches the step that saves the agent.
    assert_eq!(next_setup_step(plan, SetupStep::CheckHealth, false), None);
    assert_eq!(
        next_setup_step(plan, SetupStep::IngestContent, true),
        Some(SetupStep::SaveConfig)
    );
    assert_eq!(next_setup_step(plan, SetupStep::IngestContent, false), None);
}

#[test]
fn white_space_characters() {
    for c in ['\t', '\n', '\u{b}', '\u{c}', '\r', ' ', '\u{85}', '\u{a0}', '\u{1680}', '\u{2000}', '\u{200a}', '\u{2028}', '\u{2029}', '\u{202f}', '\u{205f}', '\u{3000}'] {
        assert!(is_white_space_char(c));
        assert!(c.is_whitespace());
    }
    for c in ['a', '\u{8}', '\u{200b}', '\u{180e}', '\u{feff}'] {
        assert!(!is_white_space_char(c));
        assert_eq!(c.is_whitespace(), false);
    }
}
