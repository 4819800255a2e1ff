use hindsight_agent::api::{
    status_text, ApiError, ClientError, HindsightClient, HttpMethod, HttpReply, Operation,
    ReplyCheck,
};
use hindsight_agent::config::AgentConfig;
use hindsight_agent::json::Json;

fn config(api_url: &str, token: Option<&str>) -> AgentConfig {
    AgentConfig {
        bank_id: "my-bank".to_string(),
        api_url: api_url.to_string(),
        api_token: token.map(|t| t.to_string()),
        harness: "hermes".to_string(),
        workspace: None,
    }
}

fn client() -> HindsightClient {
    HindsightClient::from_agent(&config("http://localhost:8888/", None)).unwrap()
}

fn object(members: Vec<(&str, Json)>) -> Json {
    Json::Object(members.into_iter().map(|(k, v)| (k.to_string(), v)).collect())
}

fn text(s: &str) -> Json {
    Json::Str(s.to_string())
}

fn reply(status: u16, body: Option<Json>) -> HttpReply {
    HttpReply { status, text: "body text".to_string(), body }
}

#[test]
fn from_agent_trims_trailing_slashes() {
    let c = HindsightClient::from_agent(&config("http://h:1//", None)).unwrap();
    assert_eq!(c.base_url(), "http://h:1");
    assert_eq!(c.bank_url("/x"), "http://h:1/v1/default/banks/my-bank/x");
    assert!(c.authorization().is_none());
    assert_eq!(c.timeout_secs(), 60);
}

#[test]
fn from_agent_with_token_sends_bearer_header() {
    let c = HindsightClient::from_agent(&config("http://h", Some("abc"))).unwrap();
    assert_eq!(c.authorization().unwrap(), "Bearer abc");
}

#[test]
fn from_agent_rejects_token_with_newline() {
    assert!(HindsightClient::from_agent(&config("http://h", Some("bad\ntoken"))).is_err());
    assert!(HindsightClient::from_agent(&config("http://h", Some("del\u{7f}"))).is_err());
    assert!(HindsightClient::from_agent(&config("http://h", Some("tab\tok"))).is_ok());
}

#[test]
fn health_request_and_judgement() {
    let call = client().health();
    assert_eq!(call.request.method, HttpMethod::Get);
    assert_eq!(call.request.url, "http://localhost:8888/health");
    assert!(call.request.body.is_none());
    assert!(matches!(call.judge(reply(200, None)), Ok(None)));
    let call = client().health();
    assert!(matches!(call.judge(reply(503, None)), Err(ApiError::Unhealthy { status: 503 })));
    let call = client().health();
    assert!(matches!(call.judge(reply(301, None)), Err(ApiError::Unhealthy { status: 301 })));
}

#[test]
fn wiki_create_body() {
    let call = client().wiki_create("page-1", "Page One", "What is it?");
    assert_eq!(call.request.method, HttpMethod::Post);
    assert_eq!(call.request.url, "http://localhost:8888/v1/default/banks/my-bank/mental-models");
    let expected = object(vec![
        ("id", text("page-1")),
        ("name", text("Page One")),
        ("source_query", text("What is it?")),
        (
            "trigger",
            object(vec![
                ("mode", text("delta")),
                ("refresh_after_consolidation", Json::Bool(true)),
                ("exclude_mental_models", Json::Bool(true)),
                ("fact_types", Json::Array(vec![text("observation")])),
            ]),
        ),
    ]);
    assert_eq!(call.request.body, Some(expected));
    match call.judge(reply(409, None)) {
        Err(ApiError::Rejected { operation: Operation::CreatePage, status: 409, detail }) => {
            assert_eq!(detail, "body text")
        }
        other => panic!("unexpected {:?}", other),
    }
}

#[test]
fn wiki_update_body_has_given_fields_only() {
    let call = client().wiki_update("p", Some("New"), None);
    assert_eq!(call.request.method, HttpMethod::Patch);
    assert_eq!(call.request.url, "http://localhost:8888/v1/default/banks/my-bank/mental-models/p");
    assert_eq!(call.request.body, Some(object(vec![("name", text("New"))])));
    let call = client().wiki_update("p", None, Some("Q"));
    assert_eq!(call.request.body, Some(object(vec![("source_query", text("Q"))])));
    let call = client().wiki_update("p", Some("N"), Some("Q"));
    assert_eq!(
        call.request.body,
        Some(object(vec![("name", text("N")), ("source_query", text("Q"))]))
    );
}

#[test]
fn wiki_get_and_delete() {
    let call = client().wiki_get("abc");
    assert_eq!(call.request.url, "http://localhost:8888/v1/default/banks/my-bank/mental-models/abc");
    match &call.check {
        ReplyCheck::NotError(Operation::GetPage(id)) => assert_eq!(id, "abc"),
        other => panic!("unexpected {:?}", other),
    }
    // a redirect is not an error status: the body is read
    assert_eq!(call.judge(reply(304, Some(Json::Null))).unwrap(), Some(Json::Null));
    let call = client().wiki_get("abc");
    assert!(matches!(
        call.judge(reply(404, None)),
        Err(ApiError::Rejected { operation: Operation::GetPage(_), status: 404, .. })
    ));
    let call = client().wiki_delete("abc");
    assert_eq!(call.request.method, HttpMethod::Delete);
    assert!(matches!(call.judge(reply(204, None)), Ok(None)));
    let call = client().wiki_delete("abc");
    assert!(matches!(call.judge(reply(500, None)), Err(ApiError::Rejected { status: 500, .. })));
}

#[test]
fn recall_body_sends_types_only_when_given() {
    let call = client().recall("q", 10, &[]);
    assert_eq!(call.request.url, "http://localhost:8888/v1/default/banks/my-bank/memories/recall");
    assert_eq!(
        call.request.body,
        Some(object(vec![("query", text("q")), ("max_results", Json::UInt(10))]))
    );
    let call = client().recall("q", 3, &["world".to_string(), "observation".to_string()]);
    assert_eq!(
        call.request.body,
        Some(object(vec![
            ("query", text("q")),
            ("max_results", Json::UInt(3)),
            ("types", Json::Array(vec![text("world"), text("observation")])),
        ]))
    );
}

#[test]
fn retain_body() {
    let call = client().retain("hello", Some("doc-1"));
    assert_eq!(call.request.url, "http://localhost:8888/v1/default/banks/my-bank/memories");
    assert_eq!(
        call.request.body,
        Some(object(vec![
            (
                "items",
                Json::Array(vec![object(vec![
                    ("content", text("hello")),
                    ("document_id", text("doc-1")),
                ])]),
            ),
            ("async", Json::Bool(true)),
        ]))
    );
    let call = client().retain("hello", None);
    assert_eq!(
        call.request.body,
        Some(object(vec![
            ("items", Json::Array(vec![object(vec![("content", text("hello"))])])),
            ("async", Json::Bool(true)),
        ]))
    );
    let ok = object(vec![("operation_id", text("op-9"))]);
    let call = client().retain("hello", None);
    assert_eq!(call.judge(reply(200, Some(ok))).unwrap().unwrap().get_member("operation_id"), Some(&text("op-9")));
    let call = client().retain("hello", None);
    assert!(matches!(
        call.judge(reply(200, None)),
        Err(ApiError::MalformedReply { operation: Operation::Retain })
    ));
}

#[test]
fn other_requests() {
    let c = client();
    let call = c.wiki_list();
    assert_eq!(call.request.url, "http://localhost:8888/v1/default/banks/my-bank/mental-models");
    assert_eq!(call.request.method, HttpMethod::Get);
    let call = c.documents_list();
    assert_eq!(call.request.url, "http://localhost:8888/v1/default/banks/my-bank/documents");
    let call = c.consolidate();
    assert_eq!(call.request.method, HttpMethod::Post);
    assert_eq!(call.request.url, "http://localhost:8888/v1/default/banks/my-bank/consolidate");
    assert!(call.request.body.is_none());
    let template = object(vec![("bank", text("x"))]);
    let call = c.import_template(object(vec![("bank", text("x"))]));
    assert_eq!(call.request.url, "http://localhost:8888/v1/default/banks/my-bank/import");
    assert_eq!(call.request.body, Some(template));
    match call.judge(reply(400, None)) {
        Err(ApiError::Rejected { operation: Operation::ImportTemplate, detail, .. }) => {
            assert_eq!(detail, "body text")
        }
        other => panic!("unexpected {:?}", other),
    }
}

#[test]
fn ensure_bank_steps() {
    let c = client();
    let listing = c.ensure_bank();
    assert_eq!(listing.method, HttpMethod::Get);
    assert_eq!(listing.url, "http://localhost:8888/v1/default/banks");
    let banks = |ids: Vec<&str>| {
        object(vec![(
            "banks",
            Json::Array(ids.into_iter().map(|id| object(vec![("bank_id", text(id))])).collect()),
        )])
    };
    assert!(c.ensure_bank_after_listing(reply(200, Some(banks(vec!["a", "my-bank"])))).unwrap().is_none());
    let create = c.ensure_bank_after_listing(reply(200, Some(banks(vec!["a"])))).unwrap().unwrap();
    assert_eq!(create.method, HttpMethod::Post);
    assert_eq!(create.url, "http://localhost:8888/v1/default/banks/my-bank/memories");
    assert_eq!(
        create.body,
        Some(object(vec![("items", Json::Array(vec![])), ("async", Json::Bool(true))]))
    );
    // a failed listing leads to creating the bank
    assert!(c.ensure_bank_after_listing(reply(500, None)).unwrap().is_some());
    // a successful listing that is not JSON is an error
    assert!(matches!(
        c.ensure_bank_after_listing(reply(200, None)),
        Err(ApiError::MalformedReply { operation: Operation::ListBanks })
    ));
}

#[test]
fn failure_contexts_name_the_page() {
    assert_eq!(Operation::GetPage("p-1".to_string()).failure_context(), "Failed to get page 'p-1'");
    assert_eq!(Operation::DeletePage("x".to_string()).failure_context(), "Failed to delete page 'x'");
    assert_eq!(Operation::Recall.failure_context(), "Recall failed");
    assert_eq!(Operation::ListPages.failure_context(), "Failed to list wiki pages");
}

#[test]
fn invalid_token_message() {
    let err = HindsightClient::from_agent(&config("http://localhost:8888", Some("a\nb"))).unwrap_err();
    assert!(matches!(err, ClientError::InvalidToken));
    assert_eq!(err.message(), "Invalid API token");
}

#[test]
fn status_texts() {
    assert_eq!(status_text(200), "200 OK");
    assert_eq!(status_text(404), "404 Not Found");
    assert_eq!(status_text(503), "503 Service Unavailable");
    assert_eq!(status_text(599), "599 <unknown status code>");
    assert_eq!(status_text(7), "7 <unknown status code>");
}

#[test]
fn api_error_messages() {
    assert_eq!(
        ApiError::Unhealthy { status: 503 }.message(),
        "Hindsight API unhealthy (503 Service Unavailable)"
    );
    let import = ApiError::Rejected {
        operation: Operation::ImportTemplate,
        status: 400,
        detail: "bad template".to_string(),
    };
    assert_eq!(import.message(), "Template import failed: bad template");
    let create = ApiError::Rejected {
        operation: Operation::CreatePage,
        status: 409,
        detail: "exists".to_string(),
    };
    assert_eq!(create.message(), "Failed to create page (409 Conflict): exists");
    let get = ApiError::Rejected {
        operation: Operation::GetPage("p".to_string()),
        status: 404,
        detail: String::new(),
    };
    assert_eq!(get.message(), "Failed to get page 'p'");
    assert_eq!(
        ApiError::MalformedReply { operation: Operation::Recall }.message(),
        "error decoding response body"
    );
}

#[test]
fn which_replies_are_read() {
    let c = client();
    assert!(!c.health().check.reads_body(200));
    assert!(c.wiki_create("p", "n", "q").check.reads_body(500));
    assert!(c.wiki_list().check.reads_body(200));
    assert!(c.wiki_list().check.reads_body(302));
    assert!(!c.wiki_list().check.reads_body(404));
    assert!(!c.wiki_delete("p").check.reads_body(200));
}

#[test]
fn request_headers_with_and_without_token() {
    let pair = |n: &str, v: &str| (n.to_string(), v.to_string());
    let c = HindsightClient::from_agent(&config("http://h", Some("abc"))).unwrap();
    assert_eq!(
        c.headers(),
        vec![pair("Content-Type", "application/json"), pair("Authorization", "Bearer abc")]
    );
    let c = HindsightClient::from_agent(&config("http://h", None)).unwrap();
    assert_eq!(c.headers(), vec![pair("Content-Type", "application/json")]);
}

#[test]
fn bank_listing_with_repeated_names_reads_the_last() {
    let c = client();
    let entry = |first: &str, last: &str| {
        object(vec![("bank_id", text(first)), ("bank_id", text(last))])
    };
    let listing = |e: Json| object(vec![("banks", Json::Array(vec![e]))]);
    assert!(c
        .ensure_bank_after_listing(reply(200, Some(listing(entry("other", "my-bank")))))
        .unwrap()
        .is_none());
    assert!(c
        .ensure_bank_after_listing(reply(200, Some(listing(entry("my-bank", "other")))))
        .unwrap()
        .is_some());
    // a repeated "banks" member: the last one is the listing
    let twice = object(vec![
        ("banks", Json::Array(vec![object(vec![("bank_id", text("my-bank"))])])),
        ("banks", Json::Array(vec![])),
    ]);
    assert!(c.ensure_bank_after_listing(reply(200, Some(twice))).unwrap().is_some());
}
