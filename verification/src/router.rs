//! The messages the frontend posts to the shell: what each one changes in
//! the shell's state, and what the shell does or answers.
use vstd::prelude::*;

use crate::auth::{str_member, string_member};
use crate::config::{or_null, member_or_null};
use crate::json::{Json, JsonV, items_view, member, member_set, member_remove, key_index, unique_keys, lemma_member_set_get, lemma_member_remove};
use crate::mcp::{McpDecision, McpRouteV, mcp_route, mcp_route_view, route_mcp};
use crate::messages::{obj2, obj3, obj4};
use crate::shell::{ShellState, o2, o3};
use crate::text::str_eq;
use crate::workspace::{
    strings_view,
    saved_roots,
    roots_json,
    labels_v,
    roots_to_json,
    save_workspace_root,
    workspace_root_labels,
    WORKSPACE_ROOTS_STATE_KEY,
};

verus! {

/// What the shell does with a message from the frontend.
#[derive(Debug, PartialEq)]
pub enum ViewStep {
    /// Post these messages to the frontend, in order.
    Post(Vec<Json>),
    /// Pick a workspace root without asking, and report it.
    SkipWorkspace,
    /// Add the given root as a workspace root option, or ask for one when
    /// none is given or it is not a directory.
    AddWorkspaceRoot(Option<String>),
    /// Make the given root the active workspace root.
    PickWorkspaceRoot(String),
    /// Answer the fetch with this request id, of this URL, with this body.
    Fetch { request_id: String, url: String, body: Option<String> },
    /// Answer, or pass on, an app-server request.
    Mcp(McpDecision),
    /// Send this message to the app-server, if it runs.
    ToAppServer(Json),
    /// Nothing to do.
    Nothing,
}

/// What the shell does with a message from the frontend, in specification
/// form.
pub enum ViewStepV {
    Post(Seq<JsonV>),
    SkipWorkspace,
    AddWorkspaceRoot(Option<Seq<char>>),
    PickWorkspaceRoot(Seq<char>),
    Fetch(Seq<char>, Seq<char>, Option<Seq<char>>),
    Mcp(Seq<char>, Seq<char>, McpRouteV),
    ToAppServer(JsonV),
    Nothing,
}

/// An optional string in specification form.
pub open spec fn opt_chars(s: Option<String>) -> Option<Seq<char>> {
    match s {
        Some(x) => Some(x@),
        None => None,
    }
}

/// A step in specification form.
pub open spec fn step_view(s: ViewStep) -> ViewStepV {
    match s {
        ViewStep::Post(ms) => ViewStepV::Post(items_view(ms@)),
        ViewStep::SkipWorkspace => ViewStepV::SkipWorkspace,
        ViewStep::AddWorkspaceRoot(r) => ViewStepV::AddWorkspaceRoot(opt_chars(r)),
        ViewStep::PickWorkspaceRoot(r) => ViewStepV::PickWorkspaceRoot(r@),
        ViewStep::Fetch { request_id, url, body } => ViewStepV::Fetch(request_id@, url@, opt_chars(body)),
        ViewStep::Mcp(d) => ViewStepV::Mcp(d.host_id@, d.request_id@, mcp_route_view(d.route)),
        ViewStep::ToAppServer(j) => ViewStepV::ToAppServer(j@),
        ViewStep::Nothing => ViewStepV::Nothing,
    }
}

/// The `deleted` flag of a persisted-atom update: `false` unless it is the
/// boolean `true`.
pub open spec fn deleted_flag(payload: JsonV) -> bool {
    match payload.get("deleted"@) {
        Some(JsonV::Bool(b)) => b,
        _ => false,
    }
}

/// The persisted atoms after an update of `key`.
pub open spec fn atoms_after_update(atoms: Seq<(Seq<char>, JsonV)>, key: Seq<char>, payload: JsonV) -> Seq<
    (Seq<char>, JsonV),
> {
    if deleted_flag(payload) {
        member_remove(atoms, key)
    } else {
        member_set(atoms, key, or_null(payload.get("value"@)))
    }
}

/// The message that reports an update of a persisted atom.
pub open spec fn atom_updated_v(key: Seq<char>, payload: JsonV) -> JsonV {
    JsonV::Object(
        seq![
            ("type"@, JsonV::Str("persisted-atom-updated"@)),
            ("key"@, JsonV::Str(key)),
            ("value"@, or_null(payload.get("value"@))),
            ("deleted"@, JsonV::Bool(deleted_flag(payload))),
        ],
    )
}

/// What a message from the frontend does: the persisted atoms, the
/// configuration and the sign-in state afterwards, and the step or an
/// error.
pub open spec fn view_step(
    atoms: Seq<(Seq<char>, JsonV)>,
    cs: Seq<(Seq<char>, JsonV)>,
    auth: Seq<(Seq<char>, JsonV)>,
    payload: JsonV,
    has_app_server: bool,
) -> (Seq<(Seq<char>, JsonV)>, Seq<(Seq<char>, JsonV)>, Seq<(Seq<char>, JsonV)>, Result<ViewStepV, Seq<char>>) {
    match str_member(payload, "type"@) {
        None => (atoms, cs, auth, Err("view message is missing type"@)),
        Some(t) => if t == "persisted-atom-sync-request"@ {
            (
                atoms,
                cs,
                auth,
                Ok(
                    ViewStepV::Post(
                        seq![o2("type", JsonV::Str("persisted-atom-sync"@), "state", JsonV::Object(atoms))],
                    ),
                ),
            )
        } else if t == "persisted-atom-update"@ {
            match str_member(payload, "key"@) {
                None => (atoms, cs, auth, Err("persisted-atom-update is missing key"@)),
                Some(k) => (
                    atoms_after_update(atoms, k, payload),
                    cs,
                    auth,
                    Ok(ViewStepV::Post(seq![atom_updated_v(k, payload)])),
                ),
            }
        } else if t == "electron-window-focus-request"@ {
            (
                atoms,
                cs,
                auth,
                Ok(
                    ViewStepV::Post(
                        seq![o2("type", JsonV::Str("electron-window-focus-changed"@), "isFocused", JsonV::Bool(true))],
                    ),
                ),
            )
        } else if t == "electron-onboarding-skip-workspace"@ {
            (atoms, cs, auth, Ok(ViewStepV::SkipWorkspace))
        } else if t == "electron-add-new-workspace-root-option"@ {
            (atoms, cs, auth, Ok(ViewStepV::AddWorkspaceRoot(str_member(payload, "root"@))))
        } else if t == "workspace-root-option-picked"@ {
            match str_member(payload, "root"@) {
                None => (atoms, cs, auth, Err("workspace-root-option-picked is missing root"@)),
                Some(r) => (atoms, cs, auth, Ok(ViewStepV::PickWorkspaceRoot(r))),
            }
        } else if t == "fetch"@ {
            match str_member(payload, "requestId"@) {
                None => (atoms, cs, auth, Err("fetch request is missing requestId"@)),
                Some(id) => match str_member(payload, "url"@) {
                    None => (atoms, cs, auth, Err("fetch request is missing url"@)),
                    Some(u) => (atoms, cs, auth, Ok(ViewStepV::Fetch(id, u, str_member(payload, "body"@)))),
                },
            }
        } else if t == "mcp-request"@ {
            let (cs2, auth2, r) = mcp_route(cs, auth, payload, has_app_server);
            (
                atoms,
                cs2,
                auth2,
                match r {
                    Ok((h, id, route)) => Ok(ViewStepV::Mcp(h, id, route)),
                    Err(m) => Err(m),
                },
            )
        } else if t == "mcp-response"@ {
            match payload.get("response"@) {
                None => (atoms, cs, auth, Err("mcp-response is missing response"@)),
                Some(x) => (atoms, cs, auth, Ok(ViewStepV::ToAppServer(x))),
            }
        } else if t == "thread-prewarm-start"@ {
            match payload.get("request"@) {
                None => (atoms, cs, auth, Err("app-server passthrough is missing request"@)),
                Some(x) => (atoms, cs, auth, Ok(ViewStepV::ToAppServer(x))),
            }
        } else {
            (atoms, cs, auth, Ok(ViewStepV::Nothing))
        },
    }
}

/// The view of a step result against its specification.
pub open spec fn step_matches(r: Result<ViewStep, String>, res: Result<ViewStepV, Seq<char>>) -> bool {
    match res {
        Ok(s) => (r matches Ok(x) && step_view(x) == s),
        Err(m) => (r matches Err(e) && e@ == m),
    }
}

/// Applies an update of a persisted atom and gives the message that
/// reports it.
fn update_atom(state: &mut ShellState, key: String, payload: &Json) -> (r: Json)
    requires
        old(state).wf(),
    ensures
        final(state).wf(),
        final(state).persisted_atoms@ == atoms_after_update(old(state).persisted_atoms@, key@, payload@),
        final(state).global_state@ == old(state).global_state@,
        final(state).config_state@ == old(state).config_state@,
        final(state).auth_state@ == old(state).auth_state@,
        r@ == atom_updated_v(key@, payload@),
{
    let deleted = match payload.get("deleted") {
        Some(v) => match v.as_bool() {
            Some(b) => b,
            None => false,
        },
        None => false,
    };
    let value = member_or_null(payload, "value");
    if deleted {
        state.persisted_atoms.remove(key.as_str());
    } else {
        state.persisted_atoms.insert(key.clone(), value.copy());
    }
    obj4("type", Json::str_of("persisted-atom-updated"), "key", Json::Str(key), "value", value, "deleted", Json::Bool(deleted))
}

/// What the shell does with a message from the frontend (the `payload` of a
/// `message-from-view`), given whether the app-server runs.
pub fn route_view_message(state: &mut ShellState, payload: &Json, has_app_server: bool) -> (r: Result<ViewStep, String>)
    requires
        old(state).wf(),
    ensures
        final(state).wf(),
        final(state).global_state@ == old(state).global_state@,
        ({
            let (atoms2, cs2, auth2, res) = view_step(
                old(state).persisted_atoms@,
                old(state).config_state@,
                old(state).auth_state@,
                payload@,
                has_app_server,
            );
            &&& final(state).persisted_atoms@ == atoms2
            &&& final(state).config_state@ == cs2
            &&& final(state).auth_state@ == auth2
            &&& step_matches(r, res)
        }),
{
    let t = match string_member(payload, "type") {
        Some(t) => t,
        None => {
            return Err("view message is missing type".to_owned());
        },
    };
    if str_eq(t.as_str(), "persisted-atom-sync-request") {
        let m = obj2("type", Json::str_of("persisted-atom-sync"), "state", state.persisted_atoms.to_object());
        let mut out: Vec<Json> = Vec::new();
        out.push(m);
        assert(items_view(out@) =~= seq![m@]);
        Ok(ViewStep::Post(out))
    } else if str_eq(t.as_str(), "persisted-atom-update") {
        let key = match string_member(payload, "key") {
            Some(k) => k,
            None => {
                return Err("persisted-atom-update is missing key".to_owned());
            },
        };
        let m = update_atom(state, key, payload);
        let mut out: Vec<Json> = Vec::new();
        out.push(m);
        assert(items_view(out@) =~= seq![m@]);
        Ok(ViewStep::Post(out))
    } else if str_eq(t.as_str(), "electron-window-focus-request") {
        let m = obj2("type", Json::str_of("electron-window-focus-changed"), "isFocused", Json::Bool(true));
        let mut out: Vec<Json> = Vec::new();
        out.push(m);
        assert(items_view(out@) =~= seq![m@]);
        Ok(ViewStep::Post(out))
    } else if str_eq(t.as_str(), "electron-onboarding-skip-workspace") {
        Ok(ViewStep::SkipWorkspace)
    } else if str_eq(t.as_str(), "electron-add-new-workspace-root-option") {
        Ok(ViewStep::AddWorkspaceRoot(string_member(payload, "root")))
    } else if str_eq(t.as_str(), "workspace-root-option-picked") {
        match string_member(payload, "root") {
            Some(root) => Ok(ViewStep::PickWorkspaceRoot(root)),
            None => Err("workspace-root-option-picked is missing root".to_owned()),
        }
    } else if str_eq(t.as_str(), "fetch") {
        let request_id = match string_member(payload, "requestId") {
            Some(x) => x,
            None => {
                return Err("fetch request is missing requestId".to_owned());
            },
        };
        let url = match string_member(payload, "url") {
            Some(x) => x,
            None => {
                return Err("fetch request is missing url".to_owned());
            },
        };
        Ok(ViewStep::Fetch { request_id, url, body: string_member(payload, "body") })
    } else if str_eq(t.as_str(), "mcp-request") {
        match route_mcp(state, payload, has_app_server) {
            Ok(d) => Ok(ViewStep::Mcp(d)),
            Err(m) => Err(m),
        }
    } else if str_eq(t.as_str(), "mcp-response") {
        match payload.get("response") {
            Some(x) => Ok(ViewStep::ToAppServer(x.copy())),
            None => Err("mcp-response is missing response".to_owned()),
        }
    } else if str_eq(t.as_str(), "thread-prewarm-start") {
        match payload.get("request") {
            Some(x) => Ok(ViewStep::ToAppServer(x.copy())),
            None => Err("app-server passthrough is missing request".to_owned()),
        }
    } else {
        Ok(ViewStep::Nothing)
    }
}

/// What a message the frontend's script handler receives does: only a
/// `message-from-view` carries work, in its `payload`.
pub open spec fn script_step(
    atoms: Seq<(Seq<char>, JsonV)>,
    cs: Seq<(Seq<char>, JsonV)>,
    auth: Seq<(Seq<char>, JsonV)>,
    envelope: JsonV,
    has_app_server: bool,
) -> (Seq<(Seq<char>, JsonV)>, Seq<(Seq<char>, JsonV)>, Seq<(Seq<char>, JsonV)>, Result<ViewStepV, Seq<char>>) {
    match str_member(envelope, "kind"@) {
        None => (atoms, cs, auth, Err("script message is missing kind"@)),
        Some(k) => if k == "message-from-view"@ {
            match envelope.get("payload"@) {
                None => (atoms, cs, auth, Err("message-from-view is missing payload"@)),
                Some(p) => view_step(atoms, cs, auth, p, has_app_server),
            }
        } else {
            (atoms, cs, auth, Ok(ViewStepV::Nothing))
        },
    }
}

/// What the shell does with a message its script handler receives.
pub fn route_script_message(state: &mut ShellState, envelope: &Json, has_app_server: bool) -> (r: Result<
    ViewStep,
    String,
>)
    requires
        old(state).wf(),
    ensures
        final(state).wf(),
        final(state).global_state@ == old(state).global_state@,
        ({
            let (atoms2, cs2, auth2, res) = script_step(
                old(state).persisted_atoms@,
                old(state).config_state@,
                old(state).auth_state@,
                envelope@,
                has_app_server,
            );
            &&& final(state).persisted_atoms@ == atoms2
            &&& final(state).config_state@ == cs2
            &&& final(state).auth_state@ == auth2
            &&& step_matches(r, res)
        }),
{
    let kind = match string_member(envelope, "kind") {
        Some(k) => k,
        None => {
            return Err("script message is missing kind".to_owned());
        },
    };
    if str_eq(kind.as_str(), "message-from-view") {
        match envelope.get("payload") {
            Some(p) => route_view_message(state, p, has_app_server),
            None => Err("message-from-view is missing payload".to_owned()),
        }
    } else {
        Ok(ViewStep::Nothing)
    }
}

/// The two messages that report the workspace roots: the active roots, and
/// the root options with their labels.
pub open spec fn roots_changed_v(roots: Seq<Seq<char>>) -> Seq<JsonV> {
    seq![
        o2("type", JsonV::Str("active-workspace-roots-changed"@), "roots", roots_json(roots)),
        o3(
            "type",
            JsonV::Str("workspace-root-options-changed"@),
            "roots",
            roots_json(roots),
            "labels",
            JsonV::Object(labels_v(roots)),
        ),
    ]
}

/// The global state after `root` is made the active workspace root.
pub open spec fn global_after_choice(
    gs: Seq<(Seq<char>, JsonV)>,
    current: Seq<Seq<char>>,
    root: Seq<char>,
) -> Seq<(Seq<char>, JsonV)> {
    member_set(gs, WORKSPACE_ROOTS_STATE_KEY@, roots_json(saved_roots(current, root)))
}

/// Makes `root` the active workspace root, before the `current` roots:
/// stores the roots and gives the messages that report them.
pub fn choose_workspace_root(state: &mut ShellState, current: &Vec<String>, root: &str) -> (r: Vec<Json>)
    requires
        old(state).wf(),
    ensures
        final(state).wf(),
        final(state).persisted_atoms@ == old(state).persisted_atoms@,
        final(state).config_state@ == old(state).config_state@,
        final(state).auth_state@ == old(state).auth_state@,
        final(state).global_state@ == global_after_choice(old(state).global_state@, strings_view(current@), root@),
        items_view(r@) == roots_changed_v(saved_roots(strings_view(current@), root@)),
{
    let roots = save_workspace_root(&mut state.global_state, current, root);
    let labels = workspace_root_labels(&roots);
    let a = obj2("type", Json::str_of("active-workspace-roots-changed"), "roots", roots_to_json(&roots));
    let b = obj3(
        "type",
        Json::str_of("workspace-root-options-changed"),
        "roots",
        roots_to_json(&roots),
        "labels",
        labels,
    );
    let mut out: Vec<Json> = Vec::new();
    out.push(a);
    out.push(b);
    assert(items_view(out@) =~= seq![a@, b@]);
    out
}

/// The messages that answer a request to skip choosing a workspace: when a
/// root was `selected`, the roots with it first and a success carrying it;
/// else a failure.
pub open spec fn skip_workspace_v(current: Seq<Seq<char>>, selected: Option<Seq<char>>) -> Seq<JsonV> {
    match selected {
        Some(root) => roots_changed_v(saved_roots(current, root)).push(
            o3(
                "type",
                JsonV::Str("electron-onboarding-skip-workspace-result"@),
                "success",
                JsonV::Bool(true),
                "root",
                JsonV::Str(root),
            ),
        ),
        None => seq![
            o3(
                "type",
                JsonV::Str("electron-onboarding-skip-workspace-result"@),
                "success",
                JsonV::Bool(false),
                "root",
                JsonV::Null,
            ),
        ],
    }
}

/// Answers a request to skip choosing a workspace, given the root the shell
/// `selected` on its own, if any; a selected root becomes the active one.
pub fn skip_workspace(state: &mut ShellState, current: &Vec<String>, selected: Option<String>) -> (r: Vec<Json>)
    requires
        old(state).wf(),
    ensures
        final(state).wf(),
        final(state).persisted_atoms@ == old(state).persisted_atoms@,
        final(state).config_state@ == old(state).config_state@,
        final(state).auth_state@ == old(state).auth_state@,
        final(state).global_state@ == match selected {
            Some(root) => global_after_choice(old(state).global_state@, strings_view(current@), root@),
            None => old(state).global_state@,
        },
        items_view(r@) == skip_workspace_v(strings_view(current@), opt_chars(selected)),
{
    match selected {
        Some(root) => {
            let mut out = choose_workspace_root(state, current, root.as_str());
            let ghost before = out@;
            let m = obj3(
                "type",
                Json::str_of("electron-onboarding-skip-workspace-result"),
                "success",
                Json::Bool(true),
                "root",
                Json::Str(root),
            );
            out.push(m);
            assert(items_view(out@) =~= items_view(before).push(m@));
            out
        },
        None => {
            let m = obj3(
                "type",
                Json::str_of("electron-onboarding-skip-workspace-result"),
                "success",
                Json::Bool(false),
                "root",
                Json::Null,
            );
            let mut out: Vec<Json> = Vec::new();
            out.push(m);
            assert(items_view(out@) =~= seq![m@]);
            out
        },
    }
}

/// Adds a workspace root option: the root that was chosen, if any (when
/// none was, nothing happens), becomes the active one.
pub fn add_workspace_root(state: &mut ShellState, current: &Vec<String>, chosen: Option<String>) -> (r: Vec<Json>)
    requires
        old(state).wf(),
    ensures
        final(state).wf(),
        final(state).persisted_atoms@ == old(state).persisted_atoms@,
        final(state).config_state@ == old(state).config_state@,
        final(state).auth_state@ == old(state).auth_state@,
        match chosen {
            Some(root) => final(state).global_state@ == global_after_choice(
                old(state).global_state@,
                strings_view(current@),
                root@,
            ) && items_view(r@) == roots_changed_v(saved_roots(strings_view(current@), root@)),
            None => final(state).global_state@ == old(state).global_state@ && r@.len() == 0,
        },
{
    match chosen {
        Some(root) => choose_workspace_root(state, current, root.as_str()),
        None => Vec::new(),
    }
}

/// Makes the picked root the active one, given the picked root as an
/// existing absolute directory (`None` when it is not one).
pub fn pick_workspace_root(state: &mut ShellState, current: &Vec<String>, resolved: Option<String>) -> (r: Result<
    Vec<Json>,
    String,
>)
    requires
        old(state).wf(),
    ensures
        final(state).wf(),
        final(state).persisted_atoms@ == old(state).persisted_atoms@,
        final(state).config_state@ == old(state).config_state@,
        final(state).auth_state@ == old(state).auth_state@,
        match resolved {
            Some(root) => (r matches Ok(ms) && items_view(ms@) == roots_changed_v(
                saved_roots(strings_view(current@), root@),
            )) && final(state).global_state@ == global_after_choice(
                old(state).global_state@,
                strings_view(current@),
                root@,
            ),
            None => (r matches Err(e) && e@ == "workspace-root-option-picked requires an existing absolute path"@)
                && final(state).global_state@ == old(state).global_state@,
        },
{
    match resolved {
        Some(root) => Ok(choose_workspace_root(state, current, root.as_str())),
        None => Err("workspace-root-option-picked requires an existing absolute path".to_owned()),
    }
}

/// The frontend's persisted atoms read back what it wrote: after a
/// `persisted-atom-update` of `key` with `value`, the next
/// `persisted-atom-sync-request` answers a state holding `value` under
/// `key`; after one that deletes `key`, a state without it.
pub proof fn law_persisted_atoms_round_trip(
    atoms: Seq<(Seq<char>, JsonV)>,
    cs: Seq<(Seq<char>, JsonV)>,
    auth: Seq<(Seq<char>, JsonV)>,
    key: Seq<char>,
    value: JsonV,
    has_app_server: bool,
)
    requires
        unique_keys(atoms),
    ensures
        ({
            let update = JsonV::Object(
                seq![
                    ("type"@, JsonV::Str("persisted-atom-update"@)),
                    ("key"@, JsonV::Str(key)),
                    ("value"@, value),
                ],
            );
            let delete = JsonV::Object(
                seq![
                    ("type"@, JsonV::Str("persisted-atom-update"@)),
                    ("key"@, JsonV::Str(key)),
                    ("deleted"@, JsonV::Bool(true)),
                ],
            );
            let sync = JsonV::Object(seq![("type"@, JsonV::Str("persisted-atom-sync-request"@))]);
            let (a1, c1, u1, r1) = view_step(atoms, cs, auth, update, has_app_server);
            let (a2, c2, u2, r2) = view_step(atoms, cs, auth, delete, has_app_server);
            &&& r1 is Ok
            &&& view_step(a1, c1, u1, sync, has_app_server).3 matches Ok(ViewStepV::Post(ms)) && ms.len() == 1
                && (ms[0].get("state"@) matches Some(JsonV::Object(st)) && member(st, key) == Some(value))
            &&& r2 is Ok
            &&& view_step(a2, c2, u2, sync, has_app_server).3 matches Ok(ViewStepV::Post(ms)) && ms.len() == 1
                && (ms[0].get("state"@) matches Some(JsonV::Object(st)) && member(st, key) is None)
        }),
{
    reveal_strlit("type");
    reveal_strlit("key");
    reveal_strlit("value");
    reveal_strlit("deleted");
    reveal_strlit("state");
    reveal_strlit("persisted-atom-update");
    reveal_strlit("persisted-atom-sync-request");
    let update = JsonV::Object(
        seq![
            ("type"@, JsonV::Str("persisted-atom-update"@)),
            ("key"@, JsonV::Str(key)),
            ("value"@, value),
        ],
    );
    let delete = JsonV::Object(
        seq![
            ("type"@, JsonV::Str("persisted-atom-update"@)),
            ("key"@, JsonV::Str(key)),
            ("deleted"@, JsonV::Bool(true)),
        ],
    );
    assert("type"@.len() == 4 && "key"@.len() == 3 && "value"@.len() == 5 && "deleted"@.len() == 7
        && "state"@.len() == 5);
    assert("persisted-atom-update"@ != "persisted-atom-sync-request"@) by {
        assert("persisted-atom-update"@.len() != "persisted-atom-sync-request"@.len());
    }
    assert(str_member(update, "type"@) == Some("persisted-atom-update"@)) by {
        reveal_with_fuel(key_index, 2);
    }
    assert(str_member(update, "key"@) == Some(key)) by {
        reveal_with_fuel(key_index, 3);
    }
    assert(update.get("value"@) == Some(value)) by {
        reveal_with_fuel(key_index, 4);
    }
    assert(update.get("deleted"@) is None) by {
        reveal_with_fuel(key_index, 4);
    }
    assert(str_member(delete, "type"@) == Some("persisted-atom-update"@)) by {
        reveal_with_fuel(key_index, 2);
    }
    assert(str_member(delete, "key"@) == Some(key)) by {
        reveal_with_fuel(key_index, 3);
    }
    assert(delete.get("deleted"@) == Some(JsonV::Bool(true))) by {
        reveal_with_fuel(key_index, 4);
    }
    let sync = JsonV::Object(seq![("type"@, JsonV::Str("persisted-atom-sync-request"@))]);
    assert(str_member(sync, "type"@) == Some("persisted-atom-sync-request"@)) by {
        reveal_with_fuel(key_index, 2);
    }
    let m1 = member_set(atoms, key, value);
    lemma_member_set_get(atoms, key, value);
    let m2 = member_remove(atoms, key);
    lemma_member_remove(atoms, key);
    assert(o2("type", JsonV::Str("persisted-atom-sync"@), "state", JsonV::Object(m1)).get("state"@) == Some(
        JsonV::Object(m1),
    )) by {
        reveal_with_fuel(key_index, 3);
    }
    assert(o2("type", JsonV::Str("persisted-atom-sync"@), "state", JsonV::Object(m2)).get("state"@) == Some(
        JsonV::Object(m2),
    )) by {
        reveal_with_fuel(key_index, 3);
    }
}

} // verus!
