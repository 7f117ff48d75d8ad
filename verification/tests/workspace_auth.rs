use codex_native::auth::{
    api_key_account, auth_token, chatgpt_account, extract_chatgpt_email, extract_chatgpt_plan_type,
    local_auth_snapshot, normalize_plan_type, stored_auth_snapshot,
};
use codex_native::json::Json;
use codex_native::listing::{directory_listing, directory_query, sort_by_keys, DirItem};
use codex_native::messages::{
    app_server_event_message, classify_app_server_message, initialize_request, unsupported_shape_text, AppServerEvent,
};
use codex_native::store::Store;
use codex_native::workspace::{
    dedup_roots, fallback_workspace_roots, is_whitespace, save_workspace_root, stored_workspace_roots, trim,
    workspace_root_candidate, workspace_root_labels, MAX_WORKSPACE_ROOTS, WORKSPACE_ROOTS_STATE_KEY,
};

fn s(x: &str) -> Json {
    Json::Str(x.to_string())
}

fn obj(pairs: Vec<(&str, Json)>) -> Json {
    Json::Object(pairs.into_iter().map(|(k, v)| (k.to_string(), v)).collect())
}

fn arr(items: Vec<Json>) -> Json {
    Json::Array(items)
}

fn strings(v: &[&str]) -> Vec<String> {
    v.iter().map(|x| x.to_string()).collect()
}

#[test]
fn trimming_follows_unicode_white_space() {
    assert!(is_whitespace(' ') && is_whitespace('\t') && is_whitespace('\u{3000}'));
    assert!(!is_whitespace('x'));
    assert_eq!(trim(" \t a b \n"), vec!['a', ' ', 'b']);
    assert_eq!(trim("   "), Vec::<char>::new());
}

#[test]
fn workspace_root_candidates() {
    assert_eq!(workspace_root_candidate("  /srv/app ", None), Some("/srv/app".to_string()));
    assert_eq!(workspace_root_candidate("~", Some("/home/u")), Some("/home/u".to_string()));
    assert_eq!(workspace_root_candidate("~/code", Some("/home/u")), Some("/home/u/code".to_string()));
    assert_eq!(workspace_root_candidate("~/code", None), None);
    assert_eq!(workspace_root_candidate("relative/dir", Some("/home/u")), None);
    assert_eq!(workspace_root_candidate("   ", Some("/home/u")), None);
}

#[test]
fn dedup_keeps_first_occurrences() {
    assert_eq!(dedup_roots(&strings(&["/a", "/b", "/a", "/c", "/b"])), strings(&["/a", "/b", "/c"]));
}

#[test]
fn saving_a_root_keeps_at_most_sixteen() {
    let mut gs = Store::new();
    let current: Vec<String> = (0..20).map(|i| format!("/r{i}")).collect();
    let roots = save_workspace_root(&mut gs, &current, "/r5");
    assert_eq!(roots.len(), MAX_WORKSPACE_ROOTS);
    assert_eq!(roots[0], "/r5");
    assert_eq!(roots[1], "/r0");
    assert_eq!(roots[6], "/r6");
    assert_eq!(roots.iter().filter(|r| r.as_str() == "/r5").count(), 1);
    let stored = stored_workspace_roots(&gs);
    assert_eq!(stored, roots);
    assert_eq!(gs.get(WORKSPACE_ROOTS_STATE_KEY).unwrap().as_array().unwrap().len(), 16);
}

#[test]
fn stored_roots_keep_only_strings() {
    let mut gs = Store::new();
    gs.insert(WORKSPACE_ROOTS_STATE_KEY.to_string(), arr(vec![s("/a"), Json::Null, s("/b")]));
    assert_eq!(stored_workspace_roots(&gs), strings(&["/a", "/b"]));
    let empty = Store::new();
    assert_eq!(stored_workspace_roots(&empty), Vec::<String>::new());
}

#[test]
fn labels_are_file_names() {
    assert_eq!(
        workspace_root_labels(&strings(&["/home/u/proj", "/"])),
        obj(vec![("/home/u/proj", s("proj")), ("/", s("/"))])
    );
}

#[test]
fn fallback_roots_order() {
    assert_eq!(
        fallback_workspace_roots(Some("/cwd"), Some("/home/u")),
        strings(&[
            "/cwd",
            "/home/u/Projects",
            "/home/u/Code",
            "/home/u/src",
            "/home/u/dev",
            "/home/u/Development",
            "/home/u/Documents",
            "/home/u",
        ])
    );
    assert_eq!(fallback_workspace_roots(Some("/"), None), Vec::<String>::new());
}

#[test]
fn plan_types_and_claims() {
    assert_eq!(normalize_plan_type(Some("plus")), "plus");
    assert_eq!(normalize_plan_type(Some("enterprise_cbp_usage_based")), "enterprise_cbp_usage_based");
    assert_eq!(normalize_plan_type(Some("gold")), "unknown");
    assert_eq!(normalize_plan_type(None), "unknown");
    let claims = obj(vec![
        ("https://api.openai.com/profile", obj(vec![("email", s("p@x.io"))])),
        ("https://api.openai.com/auth", obj(vec![("chatgpt_plan_type", s("pro"))])),
    ]);
    assert_eq!(extract_chatgpt_email(&claims), Some("p@x.io".to_string()));
    assert_eq!(extract_chatgpt_plan_type(&claims), Some("pro".to_string()));
    assert_eq!(extract_chatgpt_email(&obj(vec![])), None);
    assert_eq!(
        chatgpt_account("e@x".to_string(), "go"),
        obj(vec![("type", s("chatgpt")), ("email", s("e@x")), ("planType", s("go"))])
    );
    assert_eq!(api_key_account(), obj(vec![("type", s("apiKey"))]));
}

#[test]
fn local_auth_snapshots() {
    let key = obj(vec![("OPENAI_API_KEY", s(" sk-1 "))]);
    assert_eq!(local_auth_snapshot(&key, None, None).account, Some(obj(vec![("type", s("apiKey"))])));
    let blank = obj(vec![("OPENAI_API_KEY", s("  ")), ("auth_mode", s("chatgpt"))]);
    assert_eq!(local_auth_snapshot(&blank, None, None).account, None);
    let id = obj(vec![("email", s("i@x"))]);
    let access = obj(vec![("https://api.openai.com/auth", obj(vec![("chatgpt_plan_type", s("team"))]))]);
    assert_eq!(
        local_auth_snapshot(&blank, Some(&id), Some(&access)).account,
        Some(obj(vec![("type", s("chatgpt")), ("email", s("i@x")), ("planType", s("team"))]))
    );
    let other_mode = obj(vec![("auth_mode", s("apikey"))]);
    assert_eq!(local_auth_snapshot(&other_mode, Some(&id), None).account, None);
    let tokens = obj(vec![("tokens", obj(vec![("id_token", s("a.b.c"))]))]);
    assert_eq!(auth_token(&tokens, "id_token"), Some("a.b.c".to_string()));
    assert_eq!(auth_token(&tokens, "access_token"), None);
}

#[test]
fn stored_sign_in_wins_when_present() {
    let mut st = Store::new();
    assert!(stored_auth_snapshot(&st).is_none());
    st.insert("authMode".to_string(), s("apikey"));
    assert_eq!(stored_auth_snapshot(&st).unwrap().account, None);
    st.insert("account".to_string(), obj(vec![("type", s("apiKey"))]));
    assert_eq!(stored_auth_snapshot(&st).unwrap().account, Some(obj(vec![("type", s("apiKey"))])));
}

fn item(name: &str, is_dir: bool) -> DirItem {
    DirItem { name: name.to_string(), path: format!("/w/{name}"), is_dir }
}

fn names(entries: &[Json]) -> Vec<String> {
    entries.iter().map(|e| e.get("name").unwrap().as_str().unwrap().clone()).collect()
}

#[test]
fn directory_listing_orders_files_before_directories() {
    let items = vec![item("zeta", true), item("B.txt", false), item(".hidden", false), item("alpha", true), item("a.txt", false)];
    let out = directory_listing(items, false);
    assert_eq!(names(&out), strings(&["a.txt", "B.txt", "alpha", "zeta"]));
    assert_eq!(
        out[0],
        obj(vec![("name", s("a.txt")), ("path", s("/w/a.txt")), ("type", s("file")), ("isHidden", Json::Bool(false))])
    );
    assert_eq!(out[2].get("type"), Some(&s("directory")));
}

#[test]
fn directory_listing_with_hidden_entries_keeps_ties_in_order() {
    let items = vec![item("b", false), item(".a", false), item("B", false)];
    let out = directory_listing(items, true);
    assert_eq!(names(&out), strings(&[".a", "b", "B"]));
    assert_eq!(out[0].get("isHidden"), Some(&Json::Bool(true)));
}

#[test]
fn directory_queries() {
    let q = directory_query(&obj(vec![]), Some("/w")).unwrap();
    assert_eq!((q.root.as_str(), q.target.as_str(), q.include_hidden), ("/w", "/w", false));
    let q2 = directory_query(
        &obj(vec![("workspaceRoot", s("/r")), ("directoryPath", s("/r/d")), ("includeHidden", Json::Bool(true))]),
        Some("/w"),
    )
    .unwrap();
    assert_eq!((q2.root.as_str(), q2.target.as_str(), q2.include_hidden), ("/r", "/r/d", true));
    assert!(directory_query(&obj(vec![]), None).is_none());
}

#[test]
fn app_server_messages_are_classified() {
    let init_ok = obj(vec![("id", s("native-shell:init")), ("result", obj(vec![]))]);
    assert_eq!(classify_app_server_message(init_ok), None);
    let init_err = obj(vec![("id", s("native-shell:init")), ("error", obj(vec![("message", s("boom"))]))]);
    assert_eq!(classify_app_server_message(init_err), Some(AppServerEvent::Fatal("boom".to_string())));
    let init_err2 = obj(vec![("id", s("native-shell:init")), ("error", obj(vec![]))]);
    assert_eq!(
        classify_app_server_message(init_err2),
        Some(AppServerEvent::Fatal("codex app-server initialize failed".to_string()))
    );
    let req = obj(vec![("id", Json::Number("3".to_string())), ("method", s("x"))]);
    assert_eq!(classify_app_server_message(req.copy()), Some(AppServerEvent::Request(req)));
    let note = obj(vec![("method", s("turn/started"))]);
    assert_eq!(
        classify_app_server_message(note),
        Some(AppServerEvent::Notification { method: "turn/started".to_string(), params: Json::Null })
    );
    let resp = obj(vec![("id", s("9")), ("result", Json::Bool(true))]);
    assert_eq!(classify_app_server_message(resp.copy()), Some(AppServerEvent::Response(resp)));
    let odd = obj(vec![("id", s("9"))]);
    assert_eq!(classify_app_server_message(odd.copy()), Some(AppServerEvent::Unsupported(odd)));
    assert_eq!(unsupported_shape_text("{}"), "unsupported app-server message shape: {}");
}

#[test]
fn app_server_events_become_messages() {
    assert_eq!(
        app_server_event_message(AppServerEvent::Fatal("gone".to_string())),
        obj(vec![("type", s("codex-app-server-fatal-error")), ("hostId", s("local")), ("errorMessage", s("gone"))])
    );
    assert_eq!(
        app_server_event_message(AppServerEvent::Notification { method: "m".to_string(), params: Json::Null }),
        obj(vec![("type", s("mcp-notification")), ("hostId", s("local")), ("method", s("m")), ("params", Json::Null)])
    );
    assert_eq!(
        app_server_event_message(AppServerEvent::Request(obj(vec![]))),
        obj(vec![("type", s("mcp-request")), ("hostId", s("local")), ("request", obj(vec![]))])
    );
    assert_eq!(
        app_server_event_message(AppServerEvent::Response(obj(vec![]))),
        obj(vec![("type", s("mcp-response")), ("hostId", s("local")), ("message", obj(vec![]))])
    );
    let init = initialize_request();
    assert_eq!(init.get("id"), Some(&s("native-shell:init")));
    assert_eq!(init.get("method"), Some(&s("initialize")));
}

#[test]
fn sort_by_keys_orders_files_then_directories_by_key() {
    let keyed = vec![
        ("m".to_string(), item("Zdir", true)),
        ("b".to_string(), item("second", false)),
        ("a".to_string(), item("dir", true)),
        ("b".to_string(), item("third", false)),
        ("a".to_string(), item("first", false)),
    ];
    let sorted = sort_by_keys(keyed);
    let names: Vec<String> = sorted.iter().map(|d| d.name.clone()).collect();
    assert_eq!(names, strings(&["first", "second", "third", "dir", "Zdir"]));
    assert_eq!(sorted[0].path, "/w/first");
}
