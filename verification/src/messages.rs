//! The messages the shell sends to the frontend, and the events of the
//! Codex app-server bridge.
use vstd::prelude::*;

use crate::json::{Json, JsonV, pairs_view, items_view, entry};
use crate::text::str_eq;

verus! {

/// The host every message of the bridge names.
pub const DEFAULT_HOST_ID: &'static str = "local";

/// An object with one member.
pub fn obj1(k1: &str, v1: Json) -> (r: Json)
    ensures
        r@ == JsonV::Object(seq![(k1@, v1@)]),
{
    let mut ps: Vec<(String, Json)> = Vec::new();
    ps.push(entry(k1, v1));
    assert(pairs_view(ps@) =~= seq![(k1@, v1@)]);
    Json::Object(ps)
}

/// An object with two members.
pub fn obj2(k1: &str, v1: Json, k2: &str, v2: Json) -> (r: Json)
    ensures
        r@ == JsonV::Object(seq![(k1@, v1@), (k2@, v2@)]),
{
    let ghost (a, b) = (v1@, v2@);
    let mut ps: Vec<(String, Json)> = Vec::new();
    ps.push(entry(k1, v1));
    ps.push(entry(k2, v2));
    assert(pairs_view(ps@) =~= seq![(k1@, a), (k2@, b)]);
    Json::Object(ps)
}

/// An object with three members.
pub fn obj3(k1: &str, v1: Json, k2: &str, v2: Json, k3: &str, v3: Json) -> (r: Json)
    ensures
        r@ == JsonV::Object(seq![(k1@, v1@), (k2@, v2@), (k3@, v3@)]),
{
    let ghost (a, b, c) = (v1@, v2@, v3@);
    let mut ps: Vec<(String, Json)> = Vec::new();
    ps.push(entry(k1, v1));
    ps.push(entry(k2, v2));
    ps.push(entry(k3, v3));
    assert(pairs_view(ps@) =~= seq![(k1@, a), (k2@, b), (k3@, c)]);
    Json::Object(ps)
}

/// An object with four members.
pub fn obj4(k1: &str, v1: Json, k2: &str, v2: Json, k3: &str, v3: Json, k4: &str, v4: Json) -> (r: Json)
    ensures
        r@ == JsonV::Object(seq![(k1@, v1@), (k2@, v2@), (k3@, v3@), (k4@, v4@)]),
{
    let ghost (a, b, c, d) = (v1@, v2@, v3@, v4@);
    let mut ps: Vec<(String, Json)> = Vec::new();
    ps.push(entry(k1, v1));
    ps.push(entry(k2, v2));
    ps.push(entry(k3, v3));
    ps.push(entry(k4, v4));
    assert(pairs_view(ps@) =~= seq![(k1@, a), (k2@, b), (k3@, c), (k4@, d)]);
    Json::Object(ps)
}

/// An empty array.
pub fn empty_array() -> (r: Json)
    ensures
        r@ == JsonV::Array(seq![]),
{
    let items: Vec<Json> = Vec::new();
    assert(items_view(items@) =~= Seq::<JsonV>::empty());
    Json::Array(items)
}

/// An empty object.
pub fn empty_object() -> (r: Json)
    ensures
        r@ == JsonV::Object(seq![]),
{
    let ps: Vec<(String, Json)> = Vec::new();
    assert(pairs_view(ps@) =~= Seq::<(Seq<char>, JsonV)>::empty());
    Json::Object(ps)
}

/// The answer to a fetch that succeeded: the body travels as JSON text.
pub open spec fn fetch_success_v(request_id: Seq<char>, body_text: Seq<char>) -> JsonV {
    JsonV::Object(
        seq![
            ("type"@, JsonV::Str("fetch-response"@)),
            ("requestId"@, JsonV::Str(request_id)),
            ("responseType"@, JsonV::Str("success"@)),
            ("status"@, JsonV::Number("200"@)),
            ("headers"@, JsonV::Object(seq![("content-type"@, JsonV::Str("application/json; charset=utf-8"@))])),
            ("bodyJsonString"@, JsonV::Str(body_text)),
        ],
    )
}

/// The answer to a fetch that succeeded; `body_text` is the body written
/// as JSON.
pub fn fetch_success_message(request_id: &str, body_text: String) -> (r: Json)
    ensures
        r@ == fetch_success_v(request_id@, body_text@),
{
    let ghost bt = body_text@;
    let headers = obj1("content-type", Json::str_of("application/json; charset=utf-8"));
    let mut ps: Vec<(String, Json)> = Vec::new();
    ps.push(entry("type", Json::str_of("fetch-response")));
    ps.push(entry("requestId", Json::str_of(request_id)));
    ps.push(entry("responseType", Json::str_of("success")));
    ps.push(entry("status", Json::number_of("200")));
    ps.push(entry("headers", headers));
    ps.push(entry("bodyJsonString", Json::Str(body_text)));
    assert(pairs_view(ps@) =~= fetch_success_v(request_id@, bt)->Object_0);
    Json::Object(ps)
}

/// The answer to a fetch that failed.
pub open spec fn fetch_error_v(request_id: Seq<char>, status: Seq<char>, error: Seq<char>) -> JsonV {
    JsonV::Object(
        seq![
            ("type"@, JsonV::Str("fetch-response"@)),
            ("requestId"@, JsonV::Str(request_id)),
            ("responseType"@, JsonV::Str("error"@)),
            ("status"@, JsonV::Number(status)),
            ("error"@, JsonV::Str(error)),
        ],
    )
}

/// The answer to a fetch that failed with `status`.
pub fn fetch_error_message(request_id: &str, status: u16, error: String) -> (r: Json)
    ensures
        r@ == fetch_error_v(request_id@, crate::http::decimal(status as nat), error@),
{
    let ghost e = error@;
    let mut ps: Vec<(String, Json)> = Vec::new();
    ps.push(entry("type", Json::str_of("fetch-response")));
    ps.push(entry("requestId", Json::str_of(request_id)));
    ps.push(entry("responseType", Json::str_of("error")));
    ps.push(entry("status", Json::Number(crate::http::u64_to_decimal(status as u64))));
    ps.push(entry("error", Json::Str(error)));
    assert(pairs_view(ps@) =~= fetch_error_v(request_id@, crate::http::decimal(status as nat), e)->Object_0);
    Json::Object(ps)
}

/// The answer to an app-server request that the shell handled.
pub open spec fn mcp_success_v(host_id: Seq<char>, request_id: Seq<char>, value: JsonV) -> JsonV {
    JsonV::Object(
        seq![
            ("type"@, JsonV::Str("mcp-response"@)),
            ("hostId"@, JsonV::Str(host_id)),
            ("message"@, JsonV::Object(seq![("id"@, JsonV::Str(request_id)), ("result"@, value)])),
        ],
    )
}

/// The answer to an app-server request that the shell handled.
pub fn mcp_success_message(host_id: &str, request_id: &str, value: Json) -> (r: Json)
    ensures
        r@ == mcp_success_v(host_id@, request_id@, value@),
{
    let inner = obj2("id", Json::str_of(request_id), "result", value);
    obj3("type", Json::str_of("mcp-response"), "hostId", Json::str_of(host_id), "message", inner)
}

/// The answer to an app-server request that the shell refused.
pub open spec fn mcp_error_v(host_id: Seq<char>, request_id: Seq<char>, message: Seq<char>) -> JsonV {
    JsonV::Object(
        seq![
            ("type"@, JsonV::Str("mcp-response"@)),
            ("hostId"@, JsonV::Str(host_id)),
            (
                "message"@,
                JsonV::Object(
                    seq![
                        ("id"@, JsonV::Str(request_id)),
                        ("error"@, JsonV::Object(seq![("message"@, JsonV::Str(message))])),
                    ],
                ),
            ),
        ],
    )
}

/// The answer to an app-server request that the shell refused.
pub fn mcp_error_message(host_id: &str, request_id: &str, message: String) -> (r: Json)
    ensures
        r@ == mcp_error_v(host_id@, request_id@, message@),
{
    let err = obj1("message", Json::Str(message));
    let inner = obj2("id", Json::str_of(request_id), "error", err);
    obj3("type", Json::str_of("mcp-response"), "hostId", Json::str_of(host_id), "message", inner)
}

/// What a line of the app-server's output means.
#[derive(Debug, PartialEq)]
pub enum AppServerEvent {
    /// The answer to a request the frontend sent.
    Response(Json),
    /// A notification.
    Notification { method: String, params: Json },
    /// A request the frontend is to answer.
    Request(Json),
    /// The bridge failed; the text says why.
    Fatal(String),
    /// A message of no known shape (the text of the fatal error names it).
    Unsupported(Json),
}

/// The events a message can give, in specification form.
pub enum AppServerEventV {
    Response(JsonV),
    Notification(Seq<char>, JsonV),
    Request(JsonV),
    Fatal(Seq<char>),
    Unsupported(JsonV),
}

/// The event in specification form.
pub open spec fn event_view(e: AppServerEvent) -> AppServerEventV {
    match e {
        AppServerEvent::Response(m) => AppServerEventV::Response(m@),
        AppServerEvent::Notification { method, params } => AppServerEventV::Notification(method@, params@),
        AppServerEvent::Request(m) => AppServerEventV::Request(m@),
        AppServerEvent::Fatal(t) => AppServerEventV::Fatal(t@),
        AppServerEvent::Unsupported(m) => AppServerEventV::Unsupported(m@),
    }
}

/// What a message from the app-server means: the answer to the shell's own
/// `initialize` gives nothing (or a fatal error, if it is an error); a
/// message with a method and an id is a request; one with a string method
/// a notification; one with an id and a result or error a response;
/// anything else is of no known shape.
pub open spec fn classify_v(m: JsonV) -> Option<AppServerEventV> {
    if m.get("id"@) == Some(JsonV::Str("native-shell:init"@)) {
        match m.get("error"@) {
            Some(e) => Some(
                AppServerEventV::Fatal(
                    match e.get("message"@) {
                        Some(JsonV::Str(t)) => t,
                        _ => "codex app-server initialize failed"@,
                    },
                ),
            ),
            None => None,
        }
    } else if m.get("method"@) is Some && m.get("id"@) is Some {
        Some(AppServerEventV::Request(m))
    } else if m.get("method"@) matches Some(JsonV::Str(_)) {
        Some(
            AppServerEventV::Notification(
                m.get("method"@)->0->Str_0,
                match m.get("params"@) {
                    Some(p) => p,
                    None => JsonV::Null,
                },
            ),
        )
    } else if m.get("id"@) is Some && (m.get("result"@) is Some || m.get("error"@) is Some) {
        Some(AppServerEventV::Response(m))
    } else {
        Some(AppServerEventV::Unsupported(m))
    }
}

/// What a message from the app-server means.
pub fn classify_app_server_message(message: Json) -> (r: Option<AppServerEvent>)
    ensures
        match classify_v(message@) {
            None => r is None,
            Some(e) => (r matches Some(x) && event_view(x) == e),
        },
{
    let is_init = match message.get("id") {
        Some(id) => match id.as_str() {
            Some(s) => str_eq(s.as_str(), "native-shell:init"),
            None => false,
        },
        None => false,
    };
    if is_init {
        return match message.get("error") {
            Some(e) => {
                let text = match e.get("message") {
                    Some(t) => match t.as_str() {
                        Some(s) => s.clone(),
                        None => "codex app-server initialize failed".to_owned(),
                    },
                    None => "codex app-server initialize failed".to_owned(),
                };
                Some(AppServerEvent::Fatal(text))
            },
            None => None,
        };
    }
    let has_method = message.get("method").is_some();
    let has_id = message.get("id").is_some();
    if has_method && has_id {
        return Some(AppServerEvent::Request(message));
    }
    let method = match message.get("method") {
        Some(m) => match m.as_str() {
            Some(s) => Some(s.clone()),
            None => None,
        },
        None => None,
    };
    match method {
        Some(method) => {
            let params = match message.get("params") {
                Some(p) => p.copy(),
                None => Json::Null,
            };
            return Some(AppServerEvent::Notification { method, params });
        },
        None => {},
    }
    if has_id && (message.get("result").is_some() || message.get("error").is_some()) {
        Some(AppServerEvent::Response(message))
    } else {
        Some(AppServerEvent::Unsupported(message))
    }
}

/// A notification keeps its payload: a message with a string `method`, no
/// `id` and a `params` member is a notification of that method whose
/// params are the message's own `params`, and one without `params` has
/// `null` params.
pub proof fn law_notification_keeps_payload(m: JsonV, method: Seq<char>, params: Option<JsonV>)
    requires
        m.get("method"@) == Some(JsonV::Str(method)),
        m.get("id"@) is None,
        m.get("params"@) == params,
    ensures
        params matches Some(p) ==> classify_v(m) == Some(AppServerEventV::Notification(method, p)),
        params is None ==> classify_v(m) == Some(AppServerEventV::Notification(method, JsonV::Null)),
{
}

/// Requests and responses are passed on whole: a message with a method
/// and an id other than the shell's own `initialize` is a request holding
/// the message itself, and one with an id, a result or an error and no
/// method is a response holding the message itself.
pub proof fn law_messages_passed_whole(m: JsonV)
    requires
        m.get("id"@) is Some,
        m.get("id"@) != Some(JsonV::Str("native-shell:init"@)),
    ensures
        m.get("method"@) is Some ==> classify_v(m) == Some(AppServerEventV::Request(m)),
        m.get("method"@) is None && (m.get("result"@) is Some || m.get("error"@) is Some) ==> classify_v(m)
            == Some(AppServerEventV::Response(m)),
{
}

/// The text of the fatal error for a message of no known shape, given the
/// message written as JSON.
pub fn unsupported_shape_text(message_text: &str) -> (r: String)
    ensures
        r@ == "unsupported app-server message shape: "@ + message_text@,
{
    let mut t = "unsupported app-server message shape: ".to_owned();
    t.append(message_text);
    t
}

/// The message the frontend gets for an app-server event.
pub open spec fn event_message_v(e: AppServerEventV) -> JsonV {
    match e {
        AppServerEventV::Response(m) => JsonV::Object(
            seq![
                ("type"@, JsonV::Str("mcp-response"@)),
                ("hostId"@, JsonV::Str("local"@)),
                ("message"@, m),
            ],
        ),
        AppServerEventV::Notification(method, params) => JsonV::Object(
            seq![
                ("type"@, JsonV::Str("mcp-notification"@)),
                ("hostId"@, JsonV::Str("local"@)),
                ("method"@, JsonV::Str(method)),
                ("params"@, params),
            ],
        ),
        AppServerEventV::Request(m) => JsonV::Object(
            seq![
                ("type"@, JsonV::Str("mcp-request"@)),
                ("hostId"@, JsonV::Str("local"@)),
                ("request"@, m),
            ],
        ),
        AppServerEventV::Fatal(t) => JsonV::Object(
            seq![
                ("type"@, JsonV::Str("codex-app-server-fatal-error"@)),
                ("hostId"@, JsonV::Str("local"@)),
                ("errorMessage"@, JsonV::Str(t)),
            ],
        ),
        AppServerEventV::Unsupported(m) => JsonV::Null,
    }
}

/// The message the frontend gets for an app-server event; a message of no
/// known shape first becomes a fatal error with its text.
pub fn app_server_event_message(event: AppServerEvent) -> (r: Json)
    requires
        !(event is Unsupported),
    ensures
        r@ == event_message_v(event_view(event)),
{
    match event {
        AppServerEvent::Response(m) => obj3(
            "type",
            Json::str_of("mcp-response"),
            "hostId",
            Json::str_of(DEFAULT_HOST_ID),
            "message",
            m,
        ),
        AppServerEvent::Notification { method, params } => obj4(
            "type",
            Json::str_of("mcp-notification"),
            "hostId",
            Json::str_of(DEFAULT_HOST_ID),
            "method",
            Json::Str(method),
            "params",
            params,
        ),
        AppServerEvent::Request(m) => obj3(
            "type",
            Json::str_of("mcp-request"),
            "hostId",
            Json::str_of(DEFAULT_HOST_ID),
            "request",
            m,
        ),
        AppServerEvent::Fatal(t) => obj3(
            "type",
            Json::str_of("codex-app-server-fatal-error"),
            "hostId",
            Json::str_of(DEFAULT_HOST_ID),
            "errorMessage",
            Json::Str(t),
        ),
        AppServerEvent::Unsupported(_) => Json::Null,
    }
}

/// The `initialize` request the shell sends first.
pub open spec fn initialize_request_v() -> JsonV {
    JsonV::Object(
        seq![
            ("id"@, JsonV::Str("native-shell:init"@)),
            ("method"@, JsonV::Str("initialize"@)),
            (
                "params"@,
                JsonV::Object(
                    seq![
                        (
                            "clientInfo"@,
                            JsonV::Object(
                                seq![
                                    ("name"@, JsonV::Str("codex-native"@)),
                                    ("version"@, JsonV::Str("0.1.0"@)),
                                ],
                            ),
                        ),
                        ("capabilities"@, JsonV::Object(seq![("experimentalApi"@, JsonV::Bool(true))])),
                    ],
                ),
            ),
        ],
    )
}

/// The `initialize` request the shell sends first.
pub fn initialize_request() -> (r: Json)
    ensures
        r@ == initialize_request_v(),
{
    let client = obj2("name", Json::str_of("codex-native"), "version", Json::str_of("0.1.0"));
    let caps = obj1("experimentalApi", Json::Bool(true));
    let params = obj2("clientInfo", client, "capabilities", caps);
    obj3("id", Json::str_of("native-shell:init"), "method", Json::str_of("initialize"), "params", params)
}

} // verus!
