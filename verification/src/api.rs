//! The Hindsight API client: how an agent's configuration becomes a client,
//! which request each operation sends, and how each reply is judged.
//!
//! Sending a request is left to the caller; each operation here yields an
//! [`ApiCall`], the request together with the rule that judges its reply.

use vstd::prelude::*;
use vstd::string::*;
use vstd::utf8::encode_utf8;

use crate::config::AgentConfig;
use crate::json::{
    Json, JsonView, items_view, json_lists, json_member, lemma_lists_item_at, members_view,
};
use crate::config_json::{lemma_member_absent, lemma_member_found};
use crate::text::{trim_end_char, trim_end_char_in};

verus! {

broadcast use vstd::string::group_string_axioms;

// ── Header values ───────────────────────────────────────

/// Whether a byte may stand in an HTTP header value: a visible ASCII
/// character, a space, a tab, or any byte from 128 up.
pub open spec fn header_byte_allowed(b: u8) -> bool {
    (b >= 32 && b != 127) || b == 9
}

/// Whether the UTF-8 encoding of `s` may stand in an HTTP header value.
pub open spec fn valid_header_text(s: Seq<char>) -> bool {
    forall|i: int| 0 <= i < encode_utf8(s).len() ==> header_byte_allowed(#[trigger] encode_utf8(s)[i])
}

/// Calls `HeaderValue::from_str` (from the `http` crate, as `reqwest`
/// re-exports it) and tells whether it accepts the text, which it does
/// exactly when every byte of the text's UTF-8 encoding is allowed in a
/// header value.
#[verifier::external_body]
fn valid_header(text: &str) -> (r: bool)
    ensures
        r == valid_header_text(text@),
{
    reqwest::header::HeaderValue::from_str(text).is_ok()
}

/// The reason phrase that the `http` crate gives a status code, if it knows
/// one.
pub uninterp spec fn canonical_reason_of(status: u16) -> Option<Seq<char>>;

/// Calls `StatusCode::from_u16` and `StatusCode::canonical_reason` (from the
/// `http` crate, as `reqwest` re-exports it): the reason phrase of a status
/// code from 100 to 999, which the crate's fixed table of codes decides and
/// which is named [`canonical_reason_of`].
#[verifier::external_body]
fn canonical_reason(status: u16) -> (r: Option<&'static str>)
    requires
        100 <= status <= 999,
    ensures
        match r {
            Some(t) => canonical_reason_of(status) == Some(t@),
            None => canonical_reason_of(status) is None,
        },
{
    match reqwest::StatusCode::from_u16(status) {
        Ok(code) => code.canonical_reason(),
        Err(_) => None,
    }
}

/// The decimal digit `d`.
pub open spec fn digit_char(d: nat) -> char {
    seq!['0', '1', '2', '3', '4', '5', '6', '7', '8', '9'][d as int]
}

/// The decimal text of `n`, without leading zeros.
pub open spec fn decimal_text(n: nat) -> Seq<char>
    decreases n,
{
    if n < 10 {
        seq![digit_char(n)]
    } else {
        decimal_text(n / 10).push(digit_char(n % 10))
    }
}

/// Appends the decimal text of `n` to `out`.
fn push_decimal(out: &mut String, n: u16)
    ensures
        final(out)@ == old(out)@ + decimal_text(n as nat),
    decreases n,
{
    if n >= 10 {
        push_decimal(out, n / 10);
    }
    let digits: [char; 10] = ['0', '1', '2', '3', '4', '5', '6', '7', '8', '9'];
    let d: u16 = n % 10;
    assert(digits@ == seq!['0', '1', '2', '3', '4', '5', '6', '7', '8', '9']);
    out.push(digits[d as usize]);
    proof {
        if n >= 10 {
            assert(decimal_text(n as nat) == decimal_text((n / 10) as nat).push(digit_char((n % 10) as nat)));
        }
    }
    assert(final(out)@ =~= old(out)@ + decimal_text(n as nat));
}

/// How a status code is written: its number and its reason phrase, or
/// `<unknown status code>` when it has none.
pub open spec fn status_display(status: u16) -> Seq<char> {
    decimal_text(status as nat) + " "@ + match (if 100 <= status <= 999 {
        canonical_reason_of(status)
    } else {
        None
    }) {
        Some(reason) => reason,
        None => "<unknown status code>"@,
    }
}

/// How a status code is written: its number and its reason phrase.
pub fn status_text(status: u16) -> (r: String)
    ensures
        r@ == status_display(status),
{
    let mut r = String::new();
    push_decimal(&mut r, status);
    r.append(" ");
    let reason = if 100 <= status && status <= 999 {
        canonical_reason(status)
    } else {
        None
    };
    match reason {
        Some(t) => r.append(t),
        None => r.append("<unknown status code>"),
    }
    assert(r@ =~= status_display(status));
    r
}

// ── Requests and replies ────────────────────────────────

/// The HTTP methods that the client uses.
#[derive(Clone, Copy, Debug, PartialEq, Eq, Structural)]
pub enum HttpMethod {
    Get,
    Post,
    Patch,
    Delete,
}

/// A request to the Hindsight API.
#[derive(Debug)]
pub struct ApiRequest {
    pub method: HttpMethod,
    pub url: String,
    /// The JSON body, if the request has one.
    pub body: Option<Json>,
}

/// The value of an [`ApiRequest`].
pub struct ApiRequestView {
    pub method: HttpMethod,
    pub url: Seq<char>,
    pub body: Option<JsonView>,
}

impl View for ApiRequest {
    type V = ApiRequestView;

    open spec fn view(&self) -> ApiRequestView {
        ApiRequestView {
            method: self.method,
            url: self.url@,
            body: match self.body {
                Some(b) => Some(b@),
                None => None,
            },
        }
    }
}

/// What the server answered: the status code, the body as text, and the
/// body read as JSON when it is JSON.
#[derive(Debug)]
pub struct HttpReply {
    pub status: u16,
    pub text: String,
    pub body: Option<Json>,
}

/// Whether a status code reports success (2xx).
pub open spec fn is_success(status: u16) -> bool {
    200 <= status <= 299
}

/// Whether a status code reports a client or server error (4xx or 5xx).
pub open spec fn is_error_status(status: u16) -> bool {
    400 <= status <= 599
}

/// The operations that can fail, as their errors name them.
#[derive(Debug)]
pub enum Operation {
    ListBanks,
    ImportTemplate,
    ListPages,
    GetPage(String),
    CreatePage,
    UpdatePage(String),
    DeletePage(String),
    Recall,
    Retain,
    ListDocuments,
    Consolidate,
}

/// The value of an [`Operation`].
pub enum OperationView {
    ListBanks,
    ImportTemplate,
    ListPages,
    GetPage(Seq<char>),
    CreatePage,
    UpdatePage(Seq<char>),
    DeletePage(Seq<char>),
    Recall,
    Retain,
    ListDocuments,
    Consolidate,
}

impl View for Operation {
    type V = OperationView;

    open spec fn view(&self) -> OperationView {
        match self {
            Operation::ListBanks => OperationView::ListBanks,
            Operation::ImportTemplate => OperationView::ImportTemplate,
            Operation::ListPages => OperationView::ListPages,
            Operation::GetPage(id) => OperationView::GetPage(id@),
            Operation::CreatePage => OperationView::CreatePage,
            Operation::UpdatePage(id) => OperationView::UpdatePage(id@),
            Operation::DeletePage(id) => OperationView::DeletePage(id@),
            Operation::Recall => OperationView::Recall,
            Operation::Retain => OperationView::Retain,
            Operation::ListDocuments => OperationView::ListDocuments,
            Operation::Consolidate => OperationView::Consolidate,
        }
    }
}

/// The words that introduce the error of a failed operation.
pub open spec fn failure_context_of(operation: OperationView) -> Seq<char> {
    match operation {
        OperationView::ListBanks => "Failed to list banks"@,
        OperationView::ImportTemplate => "Template import failed"@,
        OperationView::ListPages => "Failed to list wiki pages"@,
        OperationView::GetPage(id) => "Failed to get page '"@ + id + "'"@,
        OperationView::CreatePage => "Failed to create page"@,
        OperationView::UpdatePage(id) => "Failed to update page '"@ + id + "'"@,
        OperationView::DeletePage(id) => "Failed to delete page '"@ + id + "'"@,
        OperationView::Recall => "Recall failed"@,
        OperationView::Retain => "Retain failed"@,
        OperationView::ListDocuments => "Failed to list documents"@,
        OperationView::Consolidate => "Failed to trigger consolidation"@,
    }
}

/// `prefix`, then `id`, then a closing quote.
fn quoted(prefix: &str, id: &String) -> (r: String)
    ensures
        r@ == prefix@ + id@ + "'"@,
{
    let mut r = String::from_str(prefix);
    r.append(id.as_str());
    r.append("'");
    r
}

impl Operation {
    /// The words that introduce the error of this operation when it fails.
    pub fn failure_context(&self) -> (r: String)
        ensures
            r@ == failure_context_of(self@),
    {
        match self {
            Operation::ListBanks => String::from_str("Failed to list banks"),
            Operation::ImportTemplate => String::from_str("Template import failed"),
            Operation::ListPages => String::from_str("Failed to list wiki pages"),
            Operation::GetPage(id) => quoted("Failed to get page '", id),
            Operation::CreatePage => String::from_str("Failed to create page"),
            Operation::UpdatePage(id) => quoted("Failed to update page '", id),
            Operation::DeletePage(id) => quoted("Failed to delete page '", id),
            Operation::Recall => String::from_str("Recall failed"),
            Operation::Retain => String::from_str("Retain failed"),
            Operation::ListDocuments => String::from_str("Failed to list documents"),
            Operation::Consolidate => String::from_str("Failed to trigger consolidation"),
        }
    }
}

/// How the reply to a request is judged.
#[derive(Debug)]
pub enum ReplyCheck {
    /// The server must answer with success; nothing is read.
    Health,
    /// The status must be a success, and the body JSON, which is the result.
    Success(Operation),
    /// The status must not be an error, and the body JSON, which is the result.
    NotError(Operation),
    /// The status must not be an error; the body is not read.
    NotErrorNoBody(Operation),
}

/// The value of a [`ReplyCheck`].
pub enum ReplyCheckView {
    Health,
    Success(OperationView),
    NotError(OperationView),
    NotErrorNoBody(OperationView),
}

impl View for ReplyCheck {
    type V = ReplyCheckView;

    open spec fn view(&self) -> ReplyCheckView {
        match self {
            ReplyCheck::Health => ReplyCheckView::Health,
            ReplyCheck::Success(op) => ReplyCheckView::Success(op@),
            ReplyCheck::NotError(op) => ReplyCheckView::NotError(op@),
            ReplyCheck::NotErrorNoBody(op) => ReplyCheckView::NotErrorNoBody(op@),
        }
    }
}

impl ReplyCheck {
    /// Whether judging a reply with `status` reads its body: always for
    /// the checks by success (whose refusal reports the body), when the
    /// status is not an error for the checks by error, and never for the
    /// others.
    pub fn reads_body(&self, status: u16) -> (r: bool)
        ensures
            r == match self {
                ReplyCheck::Health => false,
                ReplyCheck::Success(_) => true,
                ReplyCheck::NotError(_) => !is_error_status(status),
                ReplyCheck::NotErrorNoBody(_) => false,
            },
    {
        match self {
            ReplyCheck::Health => false,
            ReplyCheck::Success(_) => true,
            ReplyCheck::NotError(_) => !(400 <= status && status <= 599),
            ReplyCheck::NotErrorNoBody(_) => false,
        }
    }
}

/// Why an operation failed, given the server's reply.
#[derive(Debug)]
pub enum ApiError {
    /// The health check did not answer with success.
    Unhealthy { status: u16 },
    /// The server refused the operation with `status`; `detail` is the body
    /// of its reply.
    Rejected { operation: Operation, status: u16, detail: String },
    /// The reply's body was to be JSON and was not.
    MalformedReply { operation: Operation },
}

/// The message that reports an API error. A refusal by the server is
/// reported, for the operations that judge the status by success, with the
/// status or the reply's body; for the others, by the words that introduce
/// the failed operation, whose cause is the status error itself.
pub open spec fn api_error_message(e: ApiError) -> Seq<char> {
    match e {
        ApiError::Unhealthy { status } => "Hindsight API unhealthy ("@ + status_display(status) + ")"@,
        ApiError::Rejected { operation, status, detail } => match operation {
            Operation::ImportTemplate => "Template import failed: "@ + detail@,
            Operation::CreatePage => "Failed to create page ("@ + status_display(status) + "): "@
                + detail@,
            _ => failure_context_of(operation@),
        },
        ApiError::MalformedReply { .. } => "error decoding response body"@,
    }
}

impl ApiError {
    /// The message that reports this error.
    pub fn message(&self) -> (r: String)
        ensures
            r@ == api_error_message(*self),
    {
        match self {
            ApiError::Unhealthy { status } => {
                let mut r = String::from_str("Hindsight API unhealthy (");
                r.append(status_text(*status).as_str());
                r.append(")");
                r
            },
            ApiError::Rejected { operation, status, detail } => match operation {
                Operation::ImportTemplate => {
                    let mut r = String::from_str("Template import failed: ");
                    r.append(detail.as_str());
                    r
                },
                Operation::CreatePage => {
                    let mut r = String::from_str("Failed to create page (");
                    r.append(status_text(*status).as_str());
                    r.append("): ");
                    r.append(detail.as_str());
                    r
                },
                _ => operation.failure_context(),
            },
            ApiError::MalformedReply { .. } => String::from_str("error decoding response body"),
        }
    }
}

/// A request together with the rule that judges its reply.
#[derive(Debug)]
pub struct ApiCall {
    pub request: ApiRequest,
    pub check: ReplyCheck,
}

/// What judging `reply` by `check` gives: the body for the checks that read
/// one, nothing for the others, or the error.
pub open spec fn judge_reply(check: ReplyCheck, reply: HttpReply) -> Result<Option<Json>, ApiError> {
    match check {
        ReplyCheck::Health => if is_success(reply.status) {
            Ok(None)
        } else {
            Err(ApiError::Unhealthy { status: reply.status })
        },
        ReplyCheck::Success(operation) => if !is_success(reply.status) {
            Err(ApiError::Rejected { operation, status: reply.status, detail: reply.text })
        } else {
            match reply.body {
                Some(b) => Ok(Some(b)),
                None => Err(ApiError::MalformedReply { operation }),
            }
        },
        ReplyCheck::NotError(operation) => if is_error_status(reply.status) {
            Err(ApiError::Rejected { operation, status: reply.status, detail: reply.text })
        } else {
            match reply.body {
                Some(b) => Ok(Some(b)),
                None => Err(ApiError::MalformedReply { operation }),
            }
        },
        ReplyCheck::NotErrorNoBody(operation) => if is_error_status(reply.status) {
            Err(ApiError::Rejected { operation, status: reply.status, detail: reply.text })
        } else {
            Ok(None)
        },
    }
}

impl ApiCall {
    /// Judges the reply to this call's request.
    pub fn judge(self, reply: HttpReply) -> (r: Result<Option<Json>, ApiError>)
        ensures
            r == judge_reply(self.check, reply),
    {
        let status: u16 = reply.status;
        match self.check {
            ReplyCheck::Health => {
                if 200 <= status && status <= 299 {
                    Ok(None)
                } else {
                    Err(ApiError::Unhealthy { status })
                }
            },
            ReplyCheck::Success(operation) => {
                if !(200 <= status && status <= 299) {
                    Err(ApiError::Rejected { operation, status, detail: reply.text })
                } else {
                    match reply.body {
                        Some(b) => Ok(Some(b)),
                        None => Err(ApiError::MalformedReply { operation }),
                    }
                }
            },
            ReplyCheck::NotError(operation) => {
                if 400 <= status && status <= 599 {
                    Err(ApiError::Rejected { operation, status, detail: reply.text })
                } else {
                    match reply.body {
                        Some(b) => Ok(Some(b)),
                        None => Err(ApiError::MalformedReply { operation }),
                    }
                }
            },
            ReplyCheck::NotErrorNoBody(operation) => {
                if 400 <= status && status <= 599 {
                    Err(ApiError::Rejected { operation, status, detail: reply.text })
                } else {
                    Ok(None)
                }
            },
        }
    }
}

// ── Request bodies ──────────────────────────────────────

/// The body of a request that creates a wiki page: the page's id, name and
/// synthesis query, refreshed from observations after each consolidation.
pub open spec fn create_page_body(id: Seq<char>, name: Seq<char>, source_query: Seq<char>) -> JsonView {
    JsonView::Object(
        seq![
            ("id"@, JsonView::Str(id)),
            ("name"@, JsonView::Str(name)),
            ("source_query"@, JsonView::Str(source_query)),
            ("trigger"@, JsonView::Object(
                seq![
                    ("mode"@, JsonView::Str("delta"@)),
                    ("refresh_after_consolidation"@, JsonView::Bool(true)),
                    ("exclude_mental_models"@, JsonView::Bool(true)),
                    ("fact_types"@, JsonView::Array(seq![JsonView::Str("observation"@)])),
                ],
            )),
        ],
    )
}

/// A member holding a text, present only when the text is.
pub open spec fn optional_text_member(key: Seq<char>, value: Option<Seq<char>>) -> Seq<
    (Seq<char>, JsonView),
> {
    match value {
        Some(v) => seq![(key, JsonView::Str(v))],
        None => Seq::empty(),
    }
}

/// The body of a request that updates a wiki page: exactly the fields given.
pub open spec fn update_page_body(name: Option<Seq<char>>, source_query: Option<Seq<char>>) -> JsonView {
    JsonView::Object(
        optional_text_member("name"@, name) + optional_text_member("source_query"@, source_query),
    )
}

/// The body of a recall request; the fact types are sent only when some are
/// given.
pub open spec fn recall_body(query: Seq<char>, max_results: u32, types: Seq<Seq<char>>) -> JsonView {
    JsonView::Object(
        seq![("query"@, JsonView::Str(query)), ("max_results"@, JsonView::UInt(max_results as u64))]
            + if types.len() == 0 {
            Seq::empty()
        } else {
            seq![("types"@, JsonView::Array(types.map_values(|t: Seq<char>| JsonView::Str(t))))]
        },
    )
}

/// The body of a request that retains one item of content, asynchronously,
/// under a document id when one is given.
pub open spec fn retain_body(content: Seq<char>, document_id: Option<Seq<char>>) -> JsonView {
    JsonView::Object(
        seq![
            ("items"@, JsonView::Array(seq![JsonView::Object(
                seq![("content"@, JsonView::Str(content))] + optional_text_member(
                    "document_id"@,
                    document_id,
                ),
            )])),
            ("async"@, JsonView::Bool(true)),
        ],
    )
}

/// The body of the request that creates a bank: an empty asynchronous
/// retain.
pub open spec fn empty_retain_body() -> JsonView {
    JsonView::Object(
        seq![("items"@, JsonView::Array(Seq::empty())), ("async"@, JsonView::Bool(true))],
    )
}

/// Whether a bank listing names bank `bank_id`.
pub open spec fn bank_listed(listing: JsonView, bank_id: Seq<char>) -> bool {
    json_lists(listing, "banks"@, "bank_id"@, bank_id)
}

/// Whether a reply to the bank listing succeeded without a JSON body.
pub open spec fn listing_malformed(reply: HttpReply) -> bool {
    is_success(reply.status) && reply.body is None
}

/// Whether a reply to the bank listing succeeded and names bank `bank_id`.
pub open spec fn listing_names_bank(reply: HttpReply, bank_id: Seq<char>) -> bool {
    is_success(reply.status) && match reply.body {
        Some(b) => bank_listed(b@, bank_id),
        None => false,
    }
}

/// A member of a JSON object.
fn member_of(key: &str, value: Json) -> (r: (String, Json))
    ensures
        r.0@ == key@,
        r.1 == value,
{
    (String::from_str(key), value)
}

/// A JSON object from its members.
fn object_of(members: Vec<(String, Json)>) -> (r: Json)
    ensures
        r@ == JsonView::Object(members_view(members@)),
        members_view(members@).len() == members@.len(),
        forall|i: int| 0 <= i < members@.len() ==> #[trigger] members_view(members@)[i] == (members@[i].0@, members@[i].1@),
{
    proof {
        Json::lemma_members_view(members@);
    }
    Json::Object(members)
}

/// A JSON array from its items.
fn array_of(items: Vec<Json>) -> (r: Json)
    ensures
        r@ == JsonView::Array(items_view(items@)),
        items_view(items@).len() == items@.len(),
        forall|i: int| 0 <= i < items@.len() ==> #[trigger] items_view(items@)[i] == items@[i]@,
{
    proof {
        Json::lemma_items_view(items@);
    }
    Json::Array(items)
}

/// A JSON string.
fn text_of(s: &str) -> (r: Json)
    ensures
        r@ == JsonView::Str(s@),
{
    Json::Str(String::from_str(s))
}

// ── The client ──────────────────────────────────────────

/// Why a client cannot be made for an agent.
#[derive(Debug)]
pub enum ClientError {
    /// The API token cannot stand in an `Authorization` header.
    InvalidToken,
}

impl ClientError {
    /// The message that reports this error.
    pub fn message(&self) -> (r: &'static str)
        ensures
            r@ == match self {
                ClientError::InvalidToken => "Invalid API token"@,
            },
    {
        match self {
            ClientError::InvalidToken => "Invalid API token",
        }
    }
}

/// A client of the Hindsight API for one bank.
#[derive(Debug)]
pub struct HindsightClient {
    base_url: String,
    bank_id: String,
    authorization_text: Option<String>,
}

/// The text of the `Authorization` header for `token`.
pub open spec fn bearer(token: Seq<char>) -> Seq<char> {
    "Bearer "@ + token
}

impl HindsightClient {
    /// The API's address, without trailing slashes.
    pub closed spec fn base(&self) -> Seq<char> {
        self.base_url@
    }

    /// The bank that the client works on.
    pub closed spec fn bank(&self) -> Seq<char> {
        self.bank_id@
    }

    /// The text of the `Authorization` header, if the client sends one.
    pub closed spec fn authorization_header(&self) -> Option<Seq<char>> {
        match self.authorization_text {
            Some(t) => Some(t@),
            None => None,
        }
    }

    /// The address of `path` within the client's bank.
    pub open spec fn bank_path(&self, path: Seq<char>) -> Seq<char> {
        self.base() + "/v1/default/banks/"@ + self.bank() + path
    }

    /// A client for the agent that `config` describes: it sends the token,
    /// if there is one, as a bearer `Authorization` header, and addresses the
    /// API without the trailing slashes of its address. It fails exactly when
    /// the token cannot stand in a header.
    pub fn from_agent(config: &AgentConfig) -> (r: Result<HindsightClient, ClientError>)
        ensures
            r is Err <==> (config@.api_token is Some && !valid_header_text(
                bearer(config@.api_token->0),
            )),
            r matches Ok(c) ==> {
                &&& c.base() == trim_end_char(config@.api_url, '/')
                &&& c.bank() == config@.bank_id
                &&& c.authorization_header() == match config@.api_token {
                    Some(t) => Some(bearer(t)),
                    None => None,
                }
                &&& c.request_headers() == seq![("Content-Type"@, "application/json"@)] + match config@.api_token {
                    Some(t) => seq![("Authorization"@, bearer(t))],
                    None => Seq::empty(),
                }
            },
    {
        let authorization_text = match &config.api_token {
            Some(token) => {
                let mut text = String::from_str("Bearer ");
                text.append(token.as_str());
                if !valid_header(text.as_str()) {
                    return Err(ClientError::InvalidToken);
                }
                Some(text)
            },
            None => None,
        };
        Ok(
            HindsightClient {
                base_url: trim_end_char_in(config.api_url.as_str(), '/'),
                bank_id: config.bank_id.clone(),
                authorization_text,
            },
        )
    }

    /// The API's address.
    pub fn base_url(&self) -> (r: &String)
        ensures
            r@ == self.base(),
    {
        &self.base_url
    }

    /// The text of the `Authorization` header, if the client sends one.
    pub fn authorization(&self) -> (r: Option<&String>)
        ensures
            match r {
                Some(t) => self.authorization_header() == Some(t@),
                None => self.authorization_header() is None,
            },
    {
        match &self.authorization_text {
            Some(t) => Some(t),
            None => None,
        }
    }

    /// The headers that every request of the client carries, by name and
    /// value: the JSON content type, and the bearer token when there is one.
    pub open spec fn request_headers(&self) -> Seq<(Seq<char>, Seq<char>)> {
        seq![("Content-Type"@, "application/json"@)] + match self.authorization_header() {
            Some(t) => seq![("Authorization"@, t)],
            None => Seq::empty(),
        }
    }

    /// The headers that every request of the client carries, by name and
    /// value.
    pub fn headers(&self) -> (r: Vec<(String, String)>)
        ensures
            r@.map_values(|h: (String, String)| (h.0@, h.1@)) == self.request_headers(),
    {
        let mut r: Vec<(String, String)> = Vec::new();
        r.push((String::from_str("Content-Type"), String::from_str("application/json")));
        match &self.authorization_text {
            Some(t) => r.push((String::from_str("Authorization"), t.clone())),
            None => {},
        }
        assert(r@.map_values(|h: (String, String)| (h.0@, h.1@)) =~= self.request_headers());
        r
    }

    /// How long a request may take, in seconds.
    pub fn timeout_secs(&self) -> (r: u64)
        ensures
            r == 60,
    {
        60
    }

    /// The address of `path` within the client's bank.
    pub fn bank_url(&self, path: &str) -> (r: String)
        ensures
            r@ == self.bank_path(path@),
    {
        let mut url = self.base_url.clone();
        url.append("/v1/default/banks/");
        url.append(self.bank_id.as_str());
        url.append(path);
        url
    }

    /// The address of `prefix` followed by `id` within the client's bank.
    fn bank_url_with(&self, prefix: &str, id: &str) -> (r: String)
        ensures
            r@ == self.bank_path(prefix@ + id@),
    {
        let mut url = self.bank_url(prefix);
        url.append(id);
        assert(url@ =~= self.bank_path(prefix@ + id@));
        url
    }

    // ── Health ──────────────────────────────────────────

    /// Checks that the API answers: a GET of `/health`, which must succeed.
    pub fn health(&self) -> (r: ApiCall)
        ensures
            r.request@ == (ApiRequestView {
                method: HttpMethod::Get,
                url: self.base() + "/health"@,
                body: None,
            }),
            r.check == ReplyCheck::Health,
    {
        let mut url = self.base_url.clone();
        url.append("/health");
        ApiCall { request: ApiRequest { method: HttpMethod::Get, url, body: None }, check: ReplyCheck::Health }
    }

    // ── Bank ────────────────────────────────────────────

    /// The first step of making sure that the bank exists: list the banks.
    pub fn ensure_bank(&self) -> (r: ApiRequest)
        ensures
            r@ == (ApiRequestView {
                method: HttpMethod::Get,
                url: self.base() + "/v1/default/banks"@,
                body: None,
            }),
    {
        let mut url = self.base_url.clone();
        url.append("/v1/default/banks");
        ApiRequest { method: HttpMethod::Get, url, body: None }
    }

    /// The next step, given the reply to the listing: nothing more when the
    /// listing succeeded and names the bank; otherwise the request that
    /// creates the bank (an empty retain), whose reply is not judged. A
    /// successful listing whose body is not JSON is an error.
    pub fn ensure_bank_after_listing(&self, reply: HttpReply) -> (r: Result<Option<ApiRequest>, ApiError>)
        ensures
            listing_malformed(reply) ==> r == Err::<Option<ApiRequest>, ApiError>(
                ApiError::MalformedReply { operation: Operation::ListBanks },
            ),
            listing_names_bank(reply, self.bank()) ==> r == Ok::<Option<ApiRequest>, ApiError>(None),
            !listing_malformed(reply) && !listing_names_bank(reply, self.bank()) ==> (r matches Ok(
                Some(req),
            ) && req@ == (ApiRequestView {
                method: HttpMethod::Post,
                url: self.bank_path("/memories"@),
                body: Some(empty_retain_body()),
            })),
    {
        let status: u16 = reply.status;
        if 200 <= status && status <= 299 {
            match &reply.body {
                None => {
                    return Err(ApiError::MalformedReply { operation: Operation::ListBanks });
                },
                Some(listing) => {
                    if listing.lists("banks", "bank_id", self.bank_id.as_str()) {
                        return Ok(None);
                    }
                },
            }
        }
        let mut members: Vec<(String, Json)> = Vec::new();
        members.push(member_of("items", array_of(Vec::new())));
        members.push(member_of("async", Json::Bool(true)));
        let body = object_of(members);
        proof {
            assert(items_view(Seq::<Json>::empty()) =~= Seq::<JsonView>::empty());
            assert(body@->Object_0 =~= empty_retain_body()->Object_0);
        }
        Ok(Some(ApiRequest { method: HttpMethod::Post, url: self.bank_url("/memories"), body: Some(body) }))
    }

    /// Imports a bank template: a POST of the template to `/import`, which
    /// must succeed; the result is the reply's body.
    pub fn import_template(&self, template: Json) -> (r: ApiCall)
        ensures
            r.request.method == HttpMethod::Post,
            r.request.url@ == self.bank_path("/import"@),
            r.request.body == Some(template),
            r.check == ReplyCheck::Success(Operation::ImportTemplate),
    {
        ApiCall {
            request: ApiRequest {
                method: HttpMethod::Post,
                url: self.bank_url("/import"),
                body: Some(template),
            },
            check: ReplyCheck::Success(Operation::ImportTemplate),
        }
    }

    // ── Wiki (mental models) ────────────────────────────

    /// Lists the wiki pages: a GET of `/mental-models`.
    pub fn wiki_list(&self) -> (r: ApiCall)
        ensures
            r.request@ == (ApiRequestView {
                method: HttpMethod::Get,
                url: self.bank_path("/mental-models"@),
                body: None,
            }),
            r.check@ == ReplyCheckView::NotError(OperationView::ListPages),
    {
        ApiCall {
            request: ApiRequest { method: HttpMethod::Get, url: self.bank_url("/mental-models"), body: None },
            check: ReplyCheck::NotError(Operation::ListPages),
        }
    }

    /// Gets a wiki page: a GET of `/mental-models/<page_id>`.
    pub fn wiki_get(&self, page_id: &str) -> (r: ApiCall)
        ensures
            r.request@ == (ApiRequestView {
                method: HttpMethod::Get,
                url: self.bank_path("/mental-models/"@ + page_id@),
                body: None,
            }),
            r.check@ == ReplyCheckView::NotError(OperationView::GetPage(page_id@)),
    {
        ApiCall {
            request: ApiRequest {
                method: HttpMethod::Get,
                url: self.bank_url_with("/mental-models/", page_id),
                body: None,
            },
            check: ReplyCheck::NotError(Operation::GetPage(String::from_str(page_id))),
        }
    }

    /// Creates a wiki page that is refreshed from observations after each
    /// consolidation: a POST to `/mental-models`, which must succeed.
    pub fn wiki_create(&self, page_id: &str, name: &str, source_query: &str) -> (r: ApiCall)
        ensures
            r.request@ == (ApiRequestView {
                method: HttpMethod::Post,
                url: self.bank_path("/mental-models"@),
                body: Some(create_page_body(page_id@, name@, source_query@)),
            }),
            r.check@ == ReplyCheckView::Success(OperationView::CreatePage),
    {
        let mut fact_types: Vec<Json> = Vec::new();
        fact_types.push(text_of("observation"));
        let fact_types = array_of(fact_types);
        let mut trigger: Vec<(String, Json)> = Vec::new();
        trigger.push(member_of("mode", text_of("delta")));
        trigger.push(member_of("refresh_after_consolidation", Json::Bool(true)));
        trigger.push(member_of("exclude_mental_models", Json::Bool(true)));
        trigger.push(member_of("fact_types", fact_types));
        let trigger = object_of(trigger);
        let mut members: Vec<(String, Json)> = Vec::new();
        members.push(member_of("id", text_of(page_id)));
        members.push(member_of("name", text_of(name)));
        members.push(member_of("source_query", text_of(source_query)));
        members.push(member_of("trigger", trigger));
        let body = object_of(members);
        proof {
            let want = create_page_body(page_id@, name@, source_query@);
            let trigger_members = want->Object_0[3].1->Object_0;
            assert(body@->Object_0[3].1->Object_0[3].1->Array_0 =~= trigger_members[3].1->Array_0);
            assert(body@->Object_0[3].1->Object_0 =~= trigger_members);
            assert(body@->Object_0 =~= want->Object_0);
        }
        ApiCall {
            request: ApiRequest {
                method: HttpMethod::Post,
                url: self.bank_url("/mental-models"),
                body: Some(body),
            },
            check: ReplyCheck::Success(Operation::CreatePage),
        }
    }

    /// Updates a wiki page with the fields given: a PATCH of
    /// `/mental-models/<page_id>`.
    pub fn wiki_update(&self, page_id: &str, name: Option<&str>, source_query: Option<&str>) -> (r: ApiCall)
        ensures
            r.request@ == (ApiRequestView {
                method: HttpMethod::Patch,
                url: self.bank_path("/mental-models/"@ + page_id@),
                body: Some(update_page_body(
                    match name {
                        Some(n) => Some(n@),
                        None => None,
                    },
                    match source_query {
                        Some(q) => Some(q@),
                        None => None,
                    },
                )),
            }),
            r.check@ == ReplyCheckView::NotError(OperationView::UpdatePage(page_id@)),
    {
        let mut members: Vec<(String, Json)> = Vec::new();
        match name {
            Some(n) => members.push(member_of("name", text_of(n))),
            None => {},
        }
        match source_query {
            Some(q) => members.push(member_of("source_query", text_of(q))),
            None => {},
        }
        let body = object_of(members);
        proof {
            let want = update_page_body(
                match name {
                    Some(n) => Some(n@),
                    None => None,
                },
                match source_query {
                    Some(q) => Some(q@),
                    None => None,
                },
            );
            assert(body@->Object_0 =~= want->Object_0);
        }
        ApiCall {
            request: ApiRequest {
                method: HttpMethod::Patch,
                url: self.bank_url_with("/mental-models/", page_id),
                body: Some(body),
            },
            check: ReplyCheck::NotError(Operation::UpdatePage(String::from_str(page_id))),
        }
    }

    /// Deletes a wiki page: a DELETE of `/mental-models/<page_id>`; the
    /// reply's body is not read.
    pub fn wiki_delete(&self, page_id: &str) -> (r: ApiCall)
        ensures
            r.request@ == (ApiRequestView {
                method: HttpMethod::Delete,
                url: self.bank_path("/mental-models/"@ + page_id@),
                body: None,
            }),
            r.check@ == ReplyCheckView::NotErrorNoBody(OperationView::DeletePage(page_id@)),
    {
        ApiCall {
            request: ApiRequest {
                method: HttpMethod::Delete,
                url: self.bank_url_with("/mental-models/", page_id),
                body: None,
            },
            check: ReplyCheck::NotErrorNoBody(Operation::DeletePage(String::from_str(page_id))),
        }
    }

    // ── Recall ──────────────────────────────────────────

    /// Searches the bank's memories: a POST to `/memories/recall`.
    pub fn recall(&self, query: &str, max_results: u32, types: &[String]) -> (r: ApiCall)
        ensures
            r.request@ == (ApiRequestView {
                method: HttpMethod::Post,
                url: self.bank_path("/memories/recall"@),
                body: Some(recall_body(query@, max_results, crate::text::views_of(types@))),
            }),
            r.check@ == ReplyCheckView::NotError(OperationView::Recall),
    {
        let mut members: Vec<(String, Json)> = Vec::new();
        members.push(member_of("query", text_of(query)));
        members.push(member_of("max_results", Json::UInt(max_results as u64)));
        if types.len() > 0 {
            let mut items: Vec<Json> = Vec::new();
            let mut i: usize = 0;
            while i < types.len()
                invariant
                    i <= types@.len(),
                    items@.len() == i,
                    forall|k: int| 0 <= k < i ==> (#[trigger] items@[k])@ == JsonView::Str(types@[k]@),
                decreases types.len() - i,
            {
                items.push(Json::Str(types[i].clone()));
                i = i + 1;
            }
            let items = array_of(items);
            proof {
                assert(items@->Array_0 =~= crate::text::views_of(types@).map_values(
                    |t: Seq<char>| JsonView::Str(t),
                ));
            }
            members.push(member_of("types", items));
        }
        let body = object_of(members);
        proof {
            let want = recall_body(query@, max_results, crate::text::views_of(types@));
            assert(body@->Object_0 =~= want->Object_0);
        }
        ApiCall {
            request: ApiRequest {
                method: HttpMethod::Post,
                url: self.bank_url("/memories/recall"),
                body: Some(body),
            },
            check: ReplyCheck::NotError(Operation::Recall),
        }
    }

    // ── Retain ──────────────────────────────────────────

    /// The request that retains `content` under `document_id`.
    pub open spec fn retain_request(&self, content: Seq<char>, document_id: Option<Seq<char>>) -> ApiRequestView {
        ApiRequestView {
            method: HttpMethod::Post,
            url: self.bank_path("/memories"@),
            body: Some(retain_body(content, document_id)),
        }
    }

    /// Retains content, asynchronously, under `document_id` when one is
    /// given: a POST to `/memories`.
    pub fn retain(&self, content: &str, document_id: Option<&str>) -> (r: ApiCall)
        ensures
            r.request@ == self.retain_request(
                content@,
                match document_id {
                    Some(d) => Some(d@),
                    None => None,
                },
            ),
            r.check@ == ReplyCheckView::NotError(OperationView::Retain),
    {
        let mut item: Vec<(String, Json)> = Vec::new();
        item.push(member_of("content", text_of(content)));
        match document_id {
            Some(d) => item.push(member_of("document_id", text_of(d))),
            None => {},
        }
        let item = object_of(item);
        let mut items: Vec<Json> = Vec::new();
        items.push(item);
        let items = array_of(items);
        let mut members: Vec<(String, Json)> = Vec::new();
        members.push(member_of("items", items));
        members.push(member_of("async", Json::Bool(true)));
        let body = object_of(members);
        proof {
            let want = retain_body(
                content@,
                match document_id {
                    Some(d) => Some(d@),
                    None => None,
                },
            );
            let want_item = want->Object_0[0].1->Array_0[0];
            assert(body@->Object_0[0].1->Array_0[0]->Object_0 =~= want_item->Object_0);
            assert(body@->Object_0[0].1->Array_0 =~= want->Object_0[0].1->Array_0);
            assert(body@->Object_0 =~= want->Object_0);
        }
        ApiCall {
            request: ApiRequest { method: HttpMethod::Post, url: self.bank_url("/memories"), body: Some(body) },
            check: ReplyCheck::NotError(Operation::Retain),
        }
    }

    // ── Documents ───────────────────────────────────────

    /// Lists the documents retained in the bank: a GET of `/documents`.
    pub fn documents_list(&self) -> (r: ApiCall)
        ensures
            r.request@ == (ApiRequestView {
                method: HttpMethod::Get,
                url: self.bank_path("/documents"@),
                body: None,
            }),
            r.check@ == ReplyCheckView::NotError(OperationView::ListDocuments),
    {
        ApiCall {
            request: ApiRequest { method: HttpMethod::Get, url: self.bank_url("/documents"), body: None },
            check: ReplyCheck::NotError(Operation::ListDocuments),
        }
    }

    // ── Consolidation ───────────────────────────────────

    /// Triggers consolidation: a POST to `/consolidate`, without a body.
    pub fn consolidate(&self) -> (r: ApiCall)
        ensures
            r.request@ == (ApiRequestView {
                method: HttpMethod::Post,
                url: self.bank_path("/consolidate"@),
                body: None,
            }),
            r.check@ == ReplyCheckView::NotError(OperationView::Consolidate),
    {
        ApiCall {
            request: ApiRequest { method: HttpMethod::Post, url: self.bank_url("/consolidate"), body: None },
            check: ReplyCheck::NotError(Operation::Consolidate),
        }
    }
}

// ── Laws ────────────────────────────────────────────────

/// A recall request sends the query and the number of results, and the fact
/// types exactly when some are given: then its `types` member is an array of
/// those types as texts, one for one and in order, whatever their number.
pub proof fn lemma_recall_body_sends_types(query: Seq<char>, max_results: u32, types: Seq<Seq<char>>)
    ensures
        json_member(recall_body(query, max_results, types), "query"@) == Some(JsonView::Str(query)),
        json_member(recall_body(query, max_results, types), "max_results"@) == Some(
            JsonView::UInt(max_results as u64),
        ),
        json_member(recall_body(query, max_results, types), "types"@) is None <==> types.len() == 0,
        types.len() > 0 ==> (json_member(recall_body(query, max_results, types), "types"@) matches Some(
            JsonView::Array(sent),
        ) && sent.len() == types.len() && forall|k: int|
            0 <= k < types.len() ==> #[trigger] sent[k] == JsonView::Str(types[k])),
{
    reveal_strlit("query");
    reveal_strlit("max_results");
    reveal_strlit("types");
    let ms = recall_body(query, max_results, types)->Object_0;
    assert("query"@.len() == 5 && "max_results"@.len() == 11 && "types"@.len() == 5);
    assert("query"@[0] != "types"@[0]);
    assert(ms[0].0 == "query"@);
    assert(ms[1].0 == "max_results"@);
    if types.len() == 0 {
        assert(ms.len() == 2);
        lemma_member_found(ms, "query"@, 0);
        lemma_member_found(ms, "max_results"@, 1);
        lemma_member_absent(ms, "types"@);
    } else {
        assert(ms.len() == 3);
        assert(ms[2].0 == "types"@);
        lemma_member_found(ms, "query"@, 0);
        lemma_member_found(ms, "max_results"@, 1);
        lemma_member_found(ms, "types"@, 2);
    }
}

/// A call judged by error status is refused, with the reply's status and
/// body, exactly when that status is from 400 to 599: a page delete (judged
/// without a body) succeeds on every other status, and a call that reads its
/// reply gives the reply's JSON body, or fails for want of one.
pub proof fn lemma_refused_exactly_on_error_status(operation: Operation, reply: HttpReply)
    ensures
        400 <= reply.status <= 599 ==> judge_reply(ReplyCheck::NotErrorNoBody(operation), reply)
            == Err::<Option<Json>, ApiError>(
            ApiError::Rejected { operation, status: reply.status, detail: reply.text },
        ),
        !(400 <= reply.status <= 599) ==> judge_reply(ReplyCheck::NotErrorNoBody(operation), reply)
            == Ok::<Option<Json>, ApiError>(None),
        400 <= reply.status <= 599 ==> judge_reply(ReplyCheck::NotError(operation), reply) == Err::<
            Option<Json>,
            ApiError,
        >(ApiError::Rejected { operation, status: reply.status, detail: reply.text }),
        !(400 <= reply.status <= 599) ==> judge_reply(ReplyCheck::NotError(operation), reply) == match reply.body {
            Some(b) => Ok::<Option<Json>, ApiError>(Some(b)),
            None => Err::<Option<Json>, ApiError>(ApiError::MalformedReply { operation }),
        },
{
}

/// The health check passes exactly on a status from 200 to 299, and a call
/// judged by success is refused, with the reply's status and body, on every
/// other status; on success it gives the reply's JSON body, or fails for want
/// of one.
pub proof fn lemma_success_checks(operation: Operation, reply: HttpReply)
    ensures
        judge_reply(ReplyCheck::Health, reply) is Ok <==> 200 <= reply.status <= 299,
        !(200 <= reply.status <= 299) ==> judge_reply(ReplyCheck::Health, reply) == Err::<
            Option<Json>,
            ApiError,
        >(ApiError::Unhealthy { status: reply.status }),
        !(200 <= reply.status <= 299) ==> judge_reply(ReplyCheck::Success(operation), reply) == Err::<
            Option<Json>,
            ApiError,
        >(ApiError::Rejected { operation, status: reply.status, detail: reply.text }),
        200 <= reply.status <= 299 ==> judge_reply(ReplyCheck::Success(operation), reply) == match reply.body {
            Some(b) => Ok::<Option<Json>, ApiError>(Some(b)),
            None => Err::<Option<Json>, ApiError>(ApiError::MalformedReply { operation }),
        },
{
}

/// A successful bank listing in which any bank, wherever it stands among the
/// listed banks, has the bank's id names the bank: the listing is well formed
/// and no bank is created.
pub proof fn lemma_listed_bank_found_anywhere(reply: HttpReply, bank_id: Seq<char>, banks: Seq<JsonView>, i: int)
    requires
        200 <= reply.status <= 299,
        reply.body matches Some(b) && json_member(b@, "banks"@) == Some(JsonView::Array(banks)),
        0 <= i < banks.len(),
        json_member(banks[i], "bank_id"@) == Some(JsonView::Str(bank_id)),
    ensures
        listing_names_bank(reply, bank_id),
        !listing_malformed(reply),
{
    let b = reply.body->0;
    lemma_lists_item_at(b@, "banks"@, "bank_id"@, bank_id, banks, i);
}

} // verus!
