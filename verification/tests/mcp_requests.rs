use codex_native::auth::{stored_auth_snapshot, AuthSnapshot};
use codex_native::json::Json;
use codex_native::mcp::{account_read_reply, complete_token_login, is_locally_handled_mcp_method, route_mcp, McpRoute};
use codex_native::shell::ShellState;

fn s(x: &str) -> Json {
    Json::Str(x.to_string())
}

fn obj(pairs: Vec<(&str, Json)>) -> Json {
    Json::Object(pairs.into_iter().map(|(k, v)| (k.to_string(), v)).collect())
}

fn arr(items: Vec<Json>) -> Json {
    Json::Array(items)
}

fn request(method: &str, params: Option<Json>) -> Json {
    let mut r = vec![("id", s("req-1")), ("method", s(method))];
    if let Some(p) = params {
        r.push(("params", p));
    }
    obj(vec![("request", obj(r))])
}

fn route(st: &mut ShellState, payload: &Json, app: bool) -> McpRoute {
    match route_mcp(st, payload, app) {
        Ok(d) => {
            assert_eq!(d.request_id, "req-1");
            d.route
        },
        Err(e) => panic!("unexpected error {e}"),
    }
}

#[test]
fn locally_handled_methods() {
    assert!(is_locally_handled_mcp_method("account/read"));
    assert!(is_locally_handled_mcp_method("account/logout"));
    assert!(is_locally_handled_mcp_method("experimentalFeature/enablement/set"));
    assert!(!is_locally_handled_mcp_method("thread/list"));
    assert!(!is_locally_handled_mcp_method("config/read"));
}

#[test]
fn malformed_requests_are_refused() {
    let mut st = ShellState::new();
    assert_eq!(route_mcp(&mut st, &obj(vec![]), false).err(), Some("mcp-request is missing request".to_string()));
    let no_id = obj(vec![("request", obj(vec![("method", s("thread/list"))]))]);
    assert_eq!(route_mcp(&mut st, &no_id, false).err(), Some("mcp-request is missing request.id".to_string()));
    let no_method = obj(vec![("request", obj(vec![("id", s("1"))]))]);
    assert_eq!(route_mcp(&mut st, &no_method, false).err(), Some("mcp-request is missing request.method".to_string()));
}

#[test]
fn host_id_defaults_to_local() {
    let mut st = ShellState::new();
    let d = route_mcp(&mut st, &request("thread/list", None), false).unwrap();
    assert_eq!(d.host_id, "local");
    let mut p = request("thread/list", None);
    if let Json::Object(ps) = &mut p {
        ps.push(("hostId".to_string(), s("remote")));
    }
    assert_eq!(route_mcp(&mut st, &p, false).unwrap().host_id, "remote");
}

#[test]
fn app_server_gets_what_the_shell_does_not_handle() {
    let mut st = ShellState::new();
    let p = request("thread/list", None);
    let inner = p.get("request").unwrap().copy();
    assert_eq!(route(&mut st, &p, true), McpRoute::Forward(inner));
    let unknown = request("turn/start", None);
    let inner2 = unknown.get("request").unwrap().copy();
    assert_eq!(route(&mut st, &unknown, true), McpRoute::Forward(inner2));
    assert_eq!(route(&mut st, &request("account/read", None), true), McpRoute::AccountRead);
}

#[test]
fn answers_without_app_server() {
    let mut st = ShellState::new();
    assert_eq!(
        route(&mut st, &request("thread/list", None), false),
        McpRoute::Success(obj(vec![("data", arr(vec![])), ("nextCursor", Json::Null)]))
    );
    assert_eq!(
        route(&mut st, &request("account/login/cancel", None), false),
        McpRoute::Success(obj(vec![("status", s("notFound"))]))
    );
    assert_eq!(
        route(&mut st, &request("configRequirements/read", None), false),
        McpRoute::Success(obj(vec![("requirements", arr(vec![]))]))
    );
    assert_eq!(
        route(&mut st, &request("collaborationMode/list", None), false),
        McpRoute::Success(obj(vec![("data", arr(vec![]))]))
    );
    assert_eq!(
        route(&mut st, &request("mcpServerStatus/list", None), false),
        McpRoute::Success(obj(vec![("data", arr(vec![])), ("nextCursor", Json::Null)]))
    );
    assert_eq!(route(&mut st, &request("experimentalFeature/enablement/set", None), false), McpRoute::Success(obj(vec![])));
    assert_eq!(
        route(&mut st, &request("turn/start", None), false),
        McpRoute::Error("unsupported native mcp method: turn/start".to_string())
    );
    match route(&mut st, &request("model/list", None), false) {
        McpRoute::Success(v) => assert_eq!(v.get("data").unwrap().as_array().unwrap().len(), 3),
        other => panic!("unexpected {:?}", other),
    }
}

#[test]
fn api_key_login_then_read() {
    let mut st = ShellState::new();
    let r = route(&mut st, &request("account/login/start", Some(obj(vec![("type", s("apiKey"))]))), false);
    assert_eq!(r, McpRoute::Success(obj(vec![("type", s("apiKey"))])));
    let snap = stored_auth_snapshot(&st.auth_state).unwrap();
    assert_eq!(snap.account, Some(obj(vec![("type", s("apiKey"))])));
    assert_eq!(
        account_read_reply(&snap),
        obj(vec![("account", obj(vec![("type", s("apiKey"))])), ("requiresOpenaiAuth", Json::Bool(false))])
    );
    assert_eq!(route(&mut st, &request("account/logout", None), false), McpRoute::Success(obj(vec![])));
    assert!(stored_auth_snapshot(&st.auth_state).is_none());
}

#[test]
fn account_read_without_account() {
    assert_eq!(
        account_read_reply(&AuthSnapshot { account: None }),
        obj(vec![("account", Json::Null), ("requiresOpenaiAuth", Json::Bool(true))])
    );
}

#[test]
fn login_start_variants() {
    let mut st = ShellState::new();
    assert_eq!(
        route_mcp(&mut st, &request("account/login/start", None), false).err(),
        Some("account/login/start is missing type".to_string())
    );
    let tokens = obj(vec![("type", s("chatgptAuthTokens")), ("accessToken", s("a.b.c")), ("chatgptPlanType", s("pro"))]);
    assert_eq!(
        route(&mut st, &request("account/login/start", Some(tokens)), false),
        McpRoute::TokenLogin { access_token: "a.b.c".to_string(), plan_type: Some("pro".to_string()) }
    );
    assert_eq!(
        route_mcp(&mut st, &request("account/login/start", Some(obj(vec![("type", s("chatgptAuthTokens"))]))), false)
            .err(),
        Some("chatgptAuthTokens login is missing accessToken".to_string())
    );
    assert_eq!(
        route(&mut st, &request("account/login/start", Some(obj(vec![("type", s("chatgpt"))]))), false),
        McpRoute::Error(
            "native login flow for chatgpt is not implemented yet; reuse ~/.codex/auth.json or supply chatgptAuthTokens"
                .to_string()
        )
    );
    assert_eq!(
        route(&mut st, &request("account/login/start", Some(obj(vec![("type", s("magic"))]))), false),
        McpRoute::Error("unsupported account/login/start type: magic".to_string())
    );
    assert_eq!(st.auth_state.entries().len(), 0);
}

#[test]
fn token_login_stores_the_chatgpt_account() {
    let mut st = ShellState::new();
    let claims = obj(vec![
        ("email", s("me@example.com")),
        ("https://api.openai.com/auth", obj(vec![("chatgpt_plan_type", s("team"))])),
    ]);
    let r = complete_token_login(&mut st, Some(&claims), None);
    assert_eq!(r, Ok(obj(vec![("type", s("chatgptAuthTokens"))])));
    assert_eq!(st.auth_state.get("authMode"), Some(&s("chatgptAuthTokens")));
    assert_eq!(
        st.auth_state.get("account"),
        Some(&obj(vec![("type", s("chatgpt")), ("email", s("me@example.com")), ("planType", s("team"))]))
    );
    let again = complete_token_login(&mut st, Some(&claims), Some("weird"));
    assert!(again.is_ok());
    assert_eq!(st.auth_state.get("account").unwrap().get("planType"), Some(&s("unknown")));
}

#[test]
fn token_login_errors() {
    let mut st = ShellState::new();
    assert_eq!(
        complete_token_login(&mut st, None, None),
        Err("failed to decode chatgpt access token claims".to_string())
    );
    let no_email = obj(vec![("sub", s("x"))]);
    assert_eq!(
        complete_token_login(&mut st, Some(&no_email), None),
        Err("chatgptAuthTokens login is missing email claims".to_string())
    );
    let profile = obj(vec![("https://api.openai.com/profile", obj(vec![("email", s("p@x.io"))]))]);
    assert!(complete_token_login(&mut st, Some(&profile), Some("edu")).is_ok());
    assert_eq!(st.auth_state.get("account").unwrap().get("email"), Some(&s("p@x.io")));
    assert_eq!(st.auth_state.get("account").unwrap().get("planType"), Some(&s("edu")));
}

#[test]
fn config_requests_change_the_configuration() {
    let mut st = ShellState::new();
    let w = obj(vec![("keyPath", s("model")), ("value", s("gpt-5.4-mini"))]);
    assert_eq!(route(&mut st, &request("config/value/write", Some(w)), false), McpRoute::Success(obj(vec![])));
    match route(&mut st, &request("config/read", None), false) {
        McpRoute::Success(v) => assert_eq!(v.get("config").unwrap().get("model"), Some(&s("gpt-5.4-mini"))),
        other => panic!("unexpected {:?}", other),
    }
    assert_eq!(
        route_mcp(&mut st, &request("config/value/write", None), false).err(),
        Some("config/value/write is missing keyPath".to_string())
    );
    let batch = obj(vec![("edits", arr(vec![obj(vec![("keyPath", s("tools")), ("value", Json::Bool(true))])]))]);
    assert_eq!(route(&mut st, &request("config/batchWrite", Some(batch)), false), McpRoute::Success(obj(vec![])));
    assert_eq!(st.config_state.get("tools"), Some(&Json::Bool(true)));
    assert_eq!(
        route_mcp(&mut st, &request("config/batchWrite", Some(obj(vec![]))), false).err(),
        Some("config/batchWrite is missing edits".to_string())
    );
}
