use codex_native::auth::AuthSnapshot;
use codex_native::json::Json;
use codex_native::messages::{fetch_error_message, fetch_success_message, mcp_error_message, mcp_success_message};
use codex_native::shell::{
    account_info_reply, active_roots_reply, codex_home_dir, codex_home_reply, constant_fetch_reply,
    entries_reply, file_binary_reply, is_statsig_events_url, is_statsig_exception_url, is_statsig_initialize_url,
    os_info_reply, paths_exist_reply, root_options_reply, route_fetch, FetchRoute, ShellState,
};

fn s(x: &str) -> Json {
    Json::Str(x.to_string())
}

fn obj(pairs: Vec<(&str, Json)>) -> Json {
    Json::Object(pairs.into_iter().map(|(k, v)| (k.to_string(), v)).collect())
}

fn arr(items: Vec<Json>) -> Json {
    Json::Array(items)
}

fn reply(r: Result<FetchRoute, String>) -> Json {
    match r {
        Ok(FetchRoute::Reply(j)) => j,
        other => panic!("expected a reply, got {:?}", other),
    }
}

#[test]
fn statsig_urls_are_recognized() {
    assert!(is_statsig_initialize_url("https://ab.chatgpt.com/v1/initialize?k=1"));
    assert!(is_statsig_initialize_url("https://featureassets.org/v1/initialize"));
    assert!(!is_statsig_initialize_url("https://ab.chatgpt.com/v1/rgstr"));
    assert!(is_statsig_events_url("https://prodregistryv2.org/v1/rgstr"));
    assert!(is_statsig_exception_url("https://statsigapi.net/v1/sdk_exception"));
    assert!(!is_statsig_exception_url("https://statsigapi.net/v1"));
}

#[test]
fn constant_replies() {
    assert_eq!(
        constant_fetch_reply("https://ab.chatgpt.com/v1/initialize"),
        Some(obj(vec![("has_updates", Json::Bool(false))]))
    );
    assert_eq!(constant_fetch_reply("https://ab.chatgpt.com/v1/rgstr"), Some(obj(vec![("success", Json::Bool(true))])));
    assert_eq!(
        constant_fetch_reply("/wham/accounts/check"),
        Some(obj(vec![("account_ordering", arr(vec![])), ("accounts", obj(vec![]))]))
    );
    assert_eq!(constant_fetch_reply("/wham/tasks/list?limit=20"), Some(obj(vec![("items", arr(vec![]))])));
    assert_eq!(constant_fetch_reply("vscode://codex/list-automations"), Some(arr(vec![])));
    assert_eq!(
        constant_fetch_reply("vscode://codex/locale-info"),
        Some(obj(vec![("locale", s("en-US")), ("osLocale", s("en-US"))]))
    );
    assert_eq!(constant_fetch_reply("vscode://codex/get-copilot-api-proxy-info"), Some(Json::Null));
    assert_eq!(constant_fetch_reply("vscode://codex/get-global-state"), None);
}

#[test]
fn global_state_reads_back_what_was_set() {
    let mut st = ShellState::new();
    let set = obj(vec![("key", s("project-order")), ("value", arr(vec![s("p")]))]);
    let r = reply(route_fetch(&mut st, "vscode://codex/set-global-state", Some(&set)));
    assert_eq!(r, obj(vec![("ok", Json::Bool(true)), ("value", arr(vec![s("p")]))]));
    let get = obj(vec![("key", s("project-order"))]);
    let r2 = reply(route_fetch(&mut st, "vscode://codex/get-global-state", Some(&get)));
    assert_eq!(r2, obj(vec![("value", arr(vec![s("p")]))]));
}

#[test]
fn get_global_state_stores_the_default() {
    let mut st = ShellState::new();
    let get = obj(vec![("key", s("mac-menu-bar-enabled"))]);
    let r = reply(route_fetch(&mut st, "vscode://codex/get-global-state", Some(&get)));
    assert_eq!(r, obj(vec![("value", Json::Bool(false))]));
    assert_eq!(st.global_state.get("mac-menu-bar-enabled"), Some(&Json::Bool(false)));
    let none = reply(route_fetch(&mut st, "vscode://codex/get-global-state", None));
    assert_eq!(none, obj(vec![("value", Json::Null)]));
    assert_eq!(st.global_state.get(""), Some(&Json::Null));
}

#[test]
fn configuration_reads_back_what_was_set() {
    let mut st = ShellState::new();
    let get = obj(vec![("key", s("appearanceTheme"))]);
    assert_eq!(reply(route_fetch(&mut st, "vscode://codex/get-configuration", Some(&get))), s("system"));
    let set = obj(vec![("key", s("appearanceTheme")), ("value", s("dark"))]);
    route_fetch(&mut st, "vscode://codex/set-configuration", Some(&set)).unwrap();
    assert_eq!(reply(route_fetch(&mut st, "vscode://codex/get-configuration", Some(&get))), s("dark"));
}

#[test]
fn set_requests_without_body_or_key_fail() {
    let mut st = ShellState::new();
    assert_eq!(
        route_fetch(&mut st, "vscode://codex/set-global-state", None),
        Err("set-global-state is missing json body".to_string())
    );
    let no_key = obj(vec![("value", Json::Null)]);
    assert_eq!(
        route_fetch(&mut st, "vscode://codex/set-global-state", Some(&no_key)),
        Err("set-global-state is missing key".to_string())
    );
    assert_eq!(
        route_fetch(&mut st, "vscode://codex/set-configuration", None),
        Err("set-configuration is missing json body".to_string())
    );
    assert_eq!(
        route_fetch(&mut st, "vscode://codex/set-configuration", Some(&no_key)),
        Err("set-configuration is missing key".to_string())
    );
    assert_eq!(st.global_state.entries().len(), 0);
}

#[test]
fn routes_that_need_the_machine() {
    let mut st = ShellState::new();
    assert_eq!(route_fetch(&mut st, "vscode://codex/active-workspace-roots", None), Ok(FetchRoute::ActiveWorkspaceRoots));
    assert_eq!(route_fetch(&mut st, "vscode://codex/workspace-root-options", None), Ok(FetchRoute::WorkspaceRootOptions));
    let paths = obj(vec![("paths", arr(vec![s("/a"), Json::Bool(true), s("/b")]))]);
    assert_eq!(
        route_fetch(&mut st, "vscode://codex/paths-exist", Some(&paths)),
        Ok(FetchRoute::PathsExist(vec!["/a".to_string(), "/b".to_string()]))
    );
    assert_eq!(route_fetch(&mut st, "vscode://codex/paths-exist", None), Ok(FetchRoute::PathsExist(vec![])));
    let file = obj(vec![("path", s("/tmp/x"))]);
    assert_eq!(
        route_fetch(&mut st, "vscode://codex/read-file-binary", Some(&file)),
        Ok(FetchRoute::ReadFileBinary("/tmp/x".to_string()))
    );
    assert_eq!(
        route_fetch(&mut st, "vscode://codex/read-file-binary", None),
        Err("read-file-binary is missing json body".to_string())
    );
    assert_eq!(
        route_fetch(&mut st, "vscode://codex/read-file-binary", Some(&obj(vec![]))),
        Err("read-file-binary is missing path".to_string())
    );
    let dir = obj(vec![("directoryPath", s("/w"))]);
    assert_eq!(
        route_fetch(&mut st, "vscode://codex/workspace-directory-entries", Some(&dir)),
        Ok(FetchRoute::DirectoryEntries(dir.copy()))
    );
    assert_eq!(
        reply(route_fetch(&mut st, "vscode://codex/workspace-directory-entries", None)),
        obj(vec![("entries", arr(vec![]))])
    );
    assert_eq!(route_fetch(&mut st, "vscode://codex/codex-home", None), Ok(FetchRoute::CodexHome));
    assert_eq!(route_fetch(&mut st, "vscode://codex/os-info", None), Ok(FetchRoute::OsInfo));
    assert_eq!(route_fetch(&mut st, "vscode://codex/account-info", None), Ok(FetchRoute::AccountInfo));
}

#[test]
fn developer_instructions_echo_the_base() {
    let mut st = ShellState::new();
    let body = obj(vec![("baseInstructions", s("be brief"))]);
    assert_eq!(
        reply(route_fetch(&mut st, "vscode://codex/developer-instructions", Some(&body))),
        obj(vec![("instructions", s("be brief"))])
    );
    assert_eq!(
        reply(route_fetch(&mut st, "vscode://codex/developer-instructions", None)),
        obj(vec![("instructions", Json::Null)])
    );
}

#[test]
fn mcp_codex_config_reports_the_configuration() {
    let mut st = ShellState::new();
    let set = obj(vec![("key", s("model")), ("value", s("gpt-5.4"))]);
    route_fetch(&mut st, "vscode://codex/set-configuration", Some(&set)).unwrap();
    let cfg = reply(route_fetch(&mut st, "vscode://codex/mcp-codex-config", None));
    assert_eq!(cfg.get("config").unwrap().get("model"), Some(&s("gpt-5.4")));
}

#[test]
fn unknown_urls_fail_with_404() {
    let mut st = ShellState::new();
    assert_eq!(
        route_fetch(&mut st, "vscode://codex/nope", None),
        Ok(FetchRoute::Fail { status: 404, message: "unsupported native fetch url: vscode://codex/nope".to_string() })
    );
}

#[test]
fn replies_for_machine_answers() {
    let roots = vec!["/home/u/proj".to_string(), "/".to_string()];
    assert_eq!(active_roots_reply(&roots), obj(vec![("roots", arr(vec![s("/home/u/proj"), s("/")]))]));
    assert_eq!(
        root_options_reply(&roots),
        obj(vec![
            ("roots", arr(vec![s("/home/u/proj"), s("/")])),
            ("labels", obj(vec![("/home/u/proj", s("proj")), ("/", s("/"))])),
        ])
    );
    assert_eq!(paths_exist_reply(&vec!["/x".to_string()]), obj(vec![("existingPaths", arr(vec![s("/x")]))]));
    assert_eq!(
        file_binary_reply("aGk=".to_string(), "text/plain; charset=utf-8"),
        obj(vec![("contentsBase64", s("aGk=")), ("mimeType", s("text/plain; charset=utf-8"))])
    );
    assert_eq!(entries_reply(vec![Json::Null]), obj(vec![("entries", arr(vec![Json::Null]))]));
    assert_eq!(codex_home_reply(Some("/home/u")), obj(vec![("path", s("/home/u/.codex"))]));
    assert_eq!(codex_home_reply(None), obj(vec![("path", s("/home/jade/.codex"))]));
    assert_eq!(
        os_info_reply("x86_64"),
        obj(vec![("platform", s("linux")), ("arch", s("x86_64")), ("hasWsl", Json::Bool(false))])
    );
}

#[test]
fn account_info_reports_the_plan() {
    let signed = AuthSnapshot { account: Some(obj(vec![("type", s("chatgpt")), ("planType", s("plus"))])) };
    assert_eq!(account_info_reply(&signed), obj(vec![("plan", s("plus"))]));
    assert_eq!(account_info_reply(&AuthSnapshot { account: None }), obj(vec![("plan", s("unknown"))]));
}

#[test]
fn codex_home_dir_prefers_codex_home() {
    assert_eq!(codex_home_dir(Some("/opt/codex"), Some("/home/u")), "/opt/codex");
    assert_eq!(codex_home_dir(None, Some("/home/u")), "/home/u/.codex");
    assert_eq!(codex_home_dir(None, Some("/home/u/")), "/home/u/.codex");
    assert_eq!(codex_home_dir(None, None), "/home/jade/.codex");
}

#[test]
fn messages_to_the_frontend() {
    assert_eq!(
        fetch_success_message("r1", "{}".to_string()),
        obj(vec![
            ("type", s("fetch-response")),
            ("requestId", s("r1")),
            ("responseType", s("success")),
            ("status", Json::Number("200".to_string())),
            ("headers", obj(vec![("content-type", s("application/json; charset=utf-8"))])),
            ("bodyJsonString", s("{}")),
        ])
    );
    assert_eq!(
        fetch_error_message("r2", 403, "no".to_string()),
        obj(vec![
            ("type", s("fetch-response")),
            ("requestId", s("r2")),
            ("responseType", s("error")),
            ("status", Json::Number("403".to_string())),
            ("error", s("no")),
        ])
    );
    assert_eq!(
        mcp_success_message("local", "7", Json::Bool(true)),
        obj(vec![
            ("type", s("mcp-response")),
            ("hostId", s("local")),
            ("message", obj(vec![("id", s("7")), ("result", Json::Bool(true))])),
        ])
    );
    assert_eq!(
        mcp_error_message("h", "8", "bad".to_string()),
        obj(vec![
            ("type", s("mcp-response")),
            ("hostId", s("h")),
            ("message", obj(vec![("id", s("8")), ("error", obj(vec![("message", s("bad"))]))])),
        ])
    );
}
