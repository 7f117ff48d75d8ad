use codex_native::json::Json;
use codex_native::mcp::McpRoute;
use codex_native::router::{
    add_workspace_root, choose_workspace_root, pick_workspace_root, route_script_message, route_view_message,
    skip_workspace, ViewStep,
};
use codex_native::shell::ShellState;
use codex_native::workspace::{stored_workspace_roots, WORKSPACE_ROOTS_STATE_KEY};

fn s(x: &str) -> Json {
    Json::Str(x.to_string())
}

fn obj(pairs: Vec<(&str, Json)>) -> Json {
    Json::Object(pairs.into_iter().map(|(k, v)| (k.to_string(), v)).collect())
}

fn arr(items: Vec<Json>) -> Json {
    Json::Array(items)
}

fn posted(r: Result<ViewStep, String>) -> Vec<Json> {
    match r {
        Ok(ViewStep::Post(ms)) => ms,
        other => panic!("expected messages, got {:?}", other),
    }
}

#[test]
fn view_message_needs_a_type() {
    let mut st = ShellState::new();
    assert_eq!(route_view_message(&mut st, &obj(vec![]), false), Err("view message is missing type".to_string()));
}

#[test]
fn persisted_atoms_round_trip() {
    let mut st = ShellState::new();
    let update = obj(vec![("type", s("persisted-atom-update")), ("key", s("theme")), ("value", s("dark"))]);
    let ms = posted(route_view_message(&mut st, &update, false));
    assert_eq!(
        ms,
        vec![obj(vec![
            ("type", s("persisted-atom-updated")),
            ("key", s("theme")),
            ("value", s("dark")),
            ("deleted", Json::Bool(false)),
        ])]
    );
    let sync = obj(vec![("type", s("persisted-atom-sync-request"))]);
    assert_eq!(
        posted(route_view_message(&mut st, &sync, false)),
        vec![obj(vec![("type", s("persisted-atom-sync")), ("state", obj(vec![("theme", s("dark"))]))])]
    );
    let delete = obj(vec![("type", s("persisted-atom-update")), ("key", s("theme")), ("deleted", Json::Bool(true))]);
    let ms2 = posted(route_view_message(&mut st, &delete, false));
    assert_eq!(
        ms2,
        vec![obj(vec![
            ("type", s("persisted-atom-updated")),
            ("key", s("theme")),
            ("value", Json::Null),
            ("deleted", Json::Bool(true)),
        ])]
    );
    assert_eq!(
        posted(route_view_message(&mut st, &sync, false)),
        vec![obj(vec![("type", s("persisted-atom-sync")), ("state", obj(vec![]))])]
    );
}

#[test]
fn persisted_atom_update_needs_a_key() {
    let mut st = ShellState::new();
    let update = obj(vec![("type", s("persisted-atom-update")), ("value", s("dark"))]);
    assert_eq!(route_view_message(&mut st, &update, false), Err("persisted-atom-update is missing key".to_string()));
}

#[test]
fn focus_request_is_answered_focused() {
    let mut st = ShellState::new();
    let m = obj(vec![("type", s("electron-window-focus-request"))]);
    assert_eq!(
        posted(route_view_message(&mut st, &m, false)),
        vec![obj(vec![("type", s("electron-window-focus-changed")), ("isFocused", Json::Bool(true))])]
    );
}

#[test]
fn workspace_messages_become_steps() {
    let mut st = ShellState::new();
    assert_eq!(
        route_view_message(&mut st, &obj(vec![("type", s("electron-onboarding-skip-workspace"))]), false),
        Ok(ViewStep::SkipWorkspace)
    );
    assert_eq!(
        route_view_message(
            &mut st,
            &obj(vec![("type", s("electron-add-new-workspace-root-option")), ("root", s("~/p"))]),
            false
        ),
        Ok(ViewStep::AddWorkspaceRoot(Some("~/p".to_string())))
    );
    assert_eq!(
        route_view_message(&mut st, &obj(vec![("type", s("electron-add-new-workspace-root-option"))]), false),
        Ok(ViewStep::AddWorkspaceRoot(None))
    );
    assert_eq!(
        route_view_message(&mut st, &obj(vec![("type", s("workspace-root-option-picked")), ("root", s("/w"))]), false),
        Ok(ViewStep::PickWorkspaceRoot("/w".to_string()))
    );
    assert_eq!(
        route_view_message(&mut st, &obj(vec![("type", s("workspace-root-option-picked"))]), false),
        Err("workspace-root-option-picked is missing root".to_string())
    );
}

#[test]
fn fetch_messages_carry_id_url_and_body() {
    let mut st = ShellState::new();
    let m = obj(vec![("type", s("fetch")), ("requestId", s("9")), ("url", s("vscode://codex/os-info")), ("body", s("{}"))]);
    assert_eq!(
        route_view_message(&mut st, &m, false),
        Ok(ViewStep::Fetch {
            request_id: "9".to_string(),
            url: "vscode://codex/os-info".to_string(),
            body: Some("{}".to_string())
        })
    );
    let no_id = obj(vec![("type", s("fetch")), ("url", s("x"))]);
    assert_eq!(route_view_message(&mut st, &no_id, false), Err("fetch request is missing requestId".to_string()));
    let no_url = obj(vec![("type", s("fetch")), ("requestId", s("9"))]);
    assert_eq!(route_view_message(&mut st, &no_url, false), Err("fetch request is missing url".to_string()));
}

#[test]
fn mcp_messages_are_routed() {
    let mut st = ShellState::new();
    let m = obj(vec![
        ("type", s("mcp-request")),
        ("request", obj(vec![("id", s("1")), ("method", s("account/read"))])),
    ]);
    match route_view_message(&mut st, &m, false) {
        Ok(ViewStep::Mcp(d)) => {
            assert_eq!(d.host_id, "local");
            assert_eq!(d.request_id, "1");
            assert_eq!(d.route, McpRoute::AccountRead);
        },
        other => panic!("unexpected {:?}", other),
    }
    let bad = obj(vec![("type", s("mcp-request"))]);
    assert_eq!(route_view_message(&mut st, &bad, false).err(), Some("mcp-request is missing request".to_string()));
}

#[test]
fn app_server_passthroughs() {
    let mut st = ShellState::new();
    let resp = obj(vec![("type", s("mcp-response")), ("response", obj(vec![("id", s("5"))]))]);
    assert_eq!(route_view_message(&mut st, &resp, true), Ok(ViewStep::ToAppServer(obj(vec![("id", s("5"))]))));
    assert_eq!(
        route_view_message(&mut st, &obj(vec![("type", s("mcp-response"))]), true),
        Err("mcp-response is missing response".to_string())
    );
    let pre = obj(vec![("type", s("thread-prewarm-start")), ("request", obj(vec![("method", s("x"))]))]);
    assert_eq!(route_view_message(&mut st, &pre, false), Ok(ViewStep::ToAppServer(obj(vec![("method", s("x"))]))));
    assert_eq!(
        route_view_message(&mut st, &obj(vec![("type", s("thread-prewarm-start"))]), true),
        Err("app-server passthrough is missing request".to_string())
    );
    assert_eq!(route_view_message(&mut st, &obj(vec![("type", s("something-else"))]), true), Ok(ViewStep::Nothing));
}

#[test]
fn script_envelopes() {
    let mut st = ShellState::new();
    assert_eq!(route_script_message(&mut st, &obj(vec![]), false), Err("script message is missing kind".to_string()));
    assert_eq!(
        route_script_message(&mut st, &obj(vec![("kind", s("message-from-view"))]), false),
        Err("message-from-view is missing payload".to_string())
    );
    assert_eq!(route_script_message(&mut st, &obj(vec![("kind", s("other"))]), false), Ok(ViewStep::Nothing));
    let env = obj(vec![
        ("kind", s("message-from-view")),
        ("payload", obj(vec![("type", s("electron-onboarding-skip-workspace"))])),
    ]);
    assert_eq!(route_script_message(&mut st, &env, false), Ok(ViewStep::SkipWorkspace));
}

fn roots_changed(roots: Vec<&str>, labels: Vec<(&str, &str)>) -> Vec<Json> {
    let rs = arr(roots.iter().map(|r| s(r)).collect());
    vec![
        obj(vec![("type", s("active-workspace-roots-changed")), ("roots", rs.copy())]),
        obj(vec![
            ("type", s("workspace-root-options-changed")),
            ("roots", rs),
            ("labels", obj(labels.into_iter().map(|(k, v)| (k, s(v))).collect())),
        ]),
    ]
}

#[test]
fn choosing_a_root_puts_it_first_and_stores_the_roots() {
    let mut st = ShellState::new();
    let current = vec!["/a".to_string(), "/b".to_string()];
    let ms = choose_workspace_root(&mut st, &current, "/b");
    assert_eq!(ms, roots_changed(vec!["/b", "/a"], vec![("/b", "b"), ("/a", "a")]));
    assert_eq!(st.global_state.get(WORKSPACE_ROOTS_STATE_KEY), Some(&arr(vec![s("/b"), s("/a")])));
    assert_eq!(stored_workspace_roots(&st.global_state), vec!["/b".to_string(), "/a".to_string()]);
}

#[test]
fn skipping_the_workspace() {
    let mut st = ShellState::new();
    let current: Vec<String> = Vec::new();
    let mut expected = roots_changed(vec!["/home/u/Projects"], vec![("/home/u/Projects", "Projects")]);
    expected.push(obj(vec![
        ("type", s("electron-onboarding-skip-workspace-result")),
        ("success", Json::Bool(true)),
        ("root", s("/home/u/Projects")),
    ]));
    assert_eq!(skip_workspace(&mut st, &current, Some("/home/u/Projects".to_string())), expected);
    let mut st2 = ShellState::new();
    assert_eq!(
        skip_workspace(&mut st2, &current, None),
        vec![obj(vec![
            ("type", s("electron-onboarding-skip-workspace-result")),
            ("success", Json::Bool(false)),
            ("root", Json::Null),
        ])]
    );
    assert_eq!(st2.global_state.entries().len(), 0);
}

#[test]
fn adding_and_picking_roots() {
    let mut st = ShellState::new();
    let current = vec!["/x".to_string()];
    assert_eq!(add_workspace_root(&mut st, &current, None), Vec::<Json>::new());
    assert_eq!(st.global_state.entries().len(), 0);
    assert_eq!(
        add_workspace_root(&mut st, &current, Some("/y".to_string())),
        roots_changed(vec!["/y", "/x"], vec![("/y", "y"), ("/x", "x")])
    );
    assert_eq!(
        pick_workspace_root(&mut st, &current, None),
        Err("workspace-root-option-picked requires an existing absolute path".to_string())
    );
    assert_eq!(
        pick_workspace_root(&mut st, &current, Some("/x".to_string())),
        Ok(roots_changed(vec!["/x"], vec![("/x", "x")]))
    );
}
