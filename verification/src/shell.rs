//! The shell's state, and the answers to the frontend's fetch requests.
use vstd::prelude::*;

use crate::auth::{str_member, opt_view, string_member};
use crate::config::{build_mcp_config, default_config_v, applied_config, normalized_config, read_store_value_or_default, default_global_state_value, default_configuration_value, default_global_state_v, default_configuration_v, or_null, member_or_null};
use crate::json::{Json, JsonV, items_view, member, member_set, key_index, lemma_member_set_get};
use crate::messages::{obj1, obj2, obj3, empty_array, empty_object};
use crate::store::Store;
use crate::text::{str_eq, starts_with, chars_of, string_from_chars};
use crate::header::join_path;
use crate::archive::join_chars;
use crate::workspace::{string_items, strings_view, roots_to_json, roots_json, workspace_root_labels, labels_v};
use crate::auth::{AuthSnapshot, snapshot_account};

verus! {

/// What the shell keeps between messages.
pub struct ShellState {
    /// The frontend's persisted atoms.
    pub persisted_atoms: Store,
    /// The frontend's global state.
    pub global_state: Store,
    /// The configuration keys the frontend wrote.
    pub config_state: Store,
    /// The sign-in made through the shell.
    pub auth_state: Store,
}

impl ShellState {
    /// Every store keeps its keys unique.
    pub open spec fn wf(&self) -> bool {
        &&& self.persisted_atoms.wf()
        &&& self.global_state.wf()
        &&& self.config_state.wf()
        &&& self.auth_state.wf()
    }

    /// The state at start: every store empty.
    pub fn new() -> (r: ShellState)
        ensures
            r.wf(),
            r.persisted_atoms@.len() == 0,
            r.global_state@.len() == 0,
            r.config_state@.len() == 0,
            r.auth_state@.len() == 0,
    {
        ShellState {
            persisted_atoms: Store::new(),
            global_state: Store::new(),
            config_state: Store::new(),
            auth_state: Store::new(),
        }
    }
}

/// An object with one member, in specification form.
pub open spec fn o1(k1: &str, v1: JsonV) -> JsonV {
    JsonV::Object(seq![(k1@, v1)])
}

/// An object with two members, in specification form.
pub open spec fn o2(k1: &str, v1: JsonV, k2: &str, v2: JsonV) -> JsonV {
    JsonV::Object(seq![(k1@, v1), (k2@, v2)])
}

/// An object with three members, in specification form.
pub open spec fn o3(k1: &str, v1: JsonV, k2: &str, v2: JsonV, k3: &str, v3: JsonV) -> JsonV {
    JsonV::Object(seq![(k1@, v1), (k2@, v2), (k3@, v3)])
}

/// An empty array, in specification form.
pub open spec fn arr0() -> JsonV {
    JsonV::Array(seq![])
}

/// An empty object, in specification form.
pub open spec fn obj0() -> JsonV {
    JsonV::Object(seq![])
}

/// A fetch of Statsig's initialize endpoint.
pub open spec fn statsig_initialize(url: Seq<char>) -> bool {
    "https://ab.chatgpt.com/v1/initialize"@.is_prefix_of(url)
        || "https://featureassets.org/v1/initialize"@.is_prefix_of(url)
}

/// A fetch of Statsig's event endpoint.
pub open spec fn statsig_events(url: Seq<char>) -> bool {
    "https://ab.chatgpt.com/v1/rgstr"@.is_prefix_of(url) || "https://prodregistryv2.org/v1/rgstr"@.is_prefix_of(url)
}

/// A fetch of Statsig's exception endpoint.
pub open spec fn statsig_exception(url: Seq<char>) -> bool {
    "https://statsigapi.net/v1/sdk_exception"@.is_prefix_of(url)
}

/// Whether `url` is Statsig's initialize endpoint.
pub fn is_statsig_initialize_url(url: &str) -> (r: bool)
    ensures
        r == statsig_initialize(url@),
{
    starts_with(url, "https://ab.chatgpt.com/v1/initialize") || starts_with(
        url,
        "https://featureassets.org/v1/initialize",
    )
}

/// Whether `url` is Statsig's event endpoint.
pub fn is_statsig_events_url(url: &str) -> (r: bool)
    ensures
        r == statsig_events(url@),
{
    starts_with(url, "https://ab.chatgpt.com/v1/rgstr") || starts_with(
        url,
        "https://prodregistryv2.org/v1/rgstr",
    )
}

/// Whether `url` is Statsig's exception endpoint.
pub fn is_statsig_exception_url(url: &str) -> (r: bool)
    ensures
        r == statsig_exception(url@),
{
    starts_with(url, "https://statsigapi.net/v1/sdk_exception")
}

/// The answers to fetches that need no state.
pub open spec fn constant_reply(url: Seq<char>) -> Option<JsonV> {
    if statsig_initialize(url) {
        Some(o1("has_updates", JsonV::Bool(false)))
    } else if statsig_events(url) || statsig_exception(url) {
        Some(o1("success", JsonV::Bool(true)))
    } else if url == "/wham/accounts/check"@ {
        Some(o2("account_ordering", arr0(), "accounts", obj0()))
    } else if "/wham/tasks/list"@.is_prefix_of(url) {
        Some(o1("items", arr0()))
    } else if url == "vscode://codex/list-pinned-threads"@ || url == "vscode://codex/list-automations"@
        || url == "vscode://codex/list-pending-automation-run-threads"@ {
        Some(arr0())
    } else if url == "vscode://codex/git-origins"@ {
        Some(o1("origins", arr0()))
    } else if url == "vscode://codex/locale-info"@ {
        Some(o2("locale", JsonV::Str("en-US"@), "osLocale", JsonV::Str("en-US"@)))
    } else if url == "vscode://codex/inbox-items"@ {
        Some(o1("items", arr0()))
    } else if url == "vscode://codex/ide-context"@ {
        Some(o1("ideContext", JsonV::Null))
    } else if url == "vscode://codex/worktree-shell-environment-config"@ {
        Some(obj0())
    } else if url == "vscode://codex/ambient-suggestions"@ {
        Some(
            o2(
                "file",
                o3("generatedAtMs", JsonV::Null, "currentSuggestionIds", arr0(), "suggestions", arr0()),
                "items",
                arr0(),
            ),
        )
    } else if url == "vscode://codex/ambient-suggestions-generation-statuses"@ {
        Some(o1("statuses", arr0()))
    } else if url == "vscode://codex/local-environments"@ {
        Some(o1("environments", arr0()))
    } else if url == "vscode://codex/set-remote-control-connections-enabled"@ {
        Some(o1("ok", JsonV::Bool(true)))
    } else if url == "vscode://codex/open-in-targets"@ {
        Some(o2("preferredTarget", JsonV::Null, "targets", arr0()))
    } else if url == "vscode://codex/extension-info"@ {
        Some(
            o3(
                "appName",
                JsonV::Str("Codex"@),
                "platform",
                JsonV::Str("linux"@),
                "windowType",
                JsonV::Str("electron"@),
            ),
        )
    } else if url == "vscode://codex/is-copilot-api-available"@ {
        Some(o1("available", JsonV::Bool(false)))
    } else if url == "vscode://codex/get-copilot-api-proxy-info"@ {
        Some(JsonV::Null)
    } else {
        None
    }
}

/// The answer to a fetch that needs no state.
pub fn constant_fetch_reply(url: &str) -> (r: Option<Json>)
    ensures
        match constant_reply(url@) {
            None => r is None,
            Some(v) => (r matches Some(j) && j@ == v),
        },
{
    if is_statsig_initialize_url(url) {
        Some(obj1("has_updates", Json::Bool(false)))
    } else if is_statsig_events_url(url) || is_statsig_exception_url(url) {
        Some(obj1("success", Json::Bool(true)))
    } else if str_eq(url, "/wham/accounts/check") {
        Some(obj2("account_ordering", empty_array(), "accounts", empty_object()))
    } else if starts_with(url, "/wham/tasks/list") {
        Some(obj1("items", empty_array()))
    } else if str_eq(url, "vscode://codex/list-pinned-threads") || str_eq(
        url,
        "vscode://codex/list-automations",
    ) || str_eq(url, "vscode://codex/list-pending-automation-run-threads") {
        Some(empty_array())
    } else if str_eq(url, "vscode://codex/git-origins") {
        Some(obj1("origins", empty_array()))
    } else if str_eq(url, "vscode://codex/locale-info") {
        Some(obj2("locale", Json::str_of("en-US"), "osLocale", Json::str_of("en-US")))
    } else if str_eq(url, "vscode://codex/inbox-items") {
        Some(obj1("items", empty_array()))
    } else if str_eq(url, "vscode://codex/ide-context") {
        Some(obj1("ideContext", Json::Null))
    } else if str_eq(url, "vscode://codex/worktree-shell-environment-config") {
        Some(empty_object())
    } else if str_eq(url, "vscode://codex/ambient-suggestions") {
        let file = obj3(
            "generatedAtMs",
            Json::Null,
            "currentSuggestionIds",
            empty_array(),
            "suggestions",
            empty_array(),
        );
        Some(obj2("file", file, "items", empty_array()))
    } else if str_eq(url, "vscode://codex/ambient-suggestions-generation-statuses") {
        Some(obj1("statuses", empty_array()))
    } else if str_eq(url, "vscode://codex/local-environments") {
        Some(obj1("environments", empty_array()))
    } else if str_eq(url, "vscode://codex/set-remote-control-connections-enabled") {
        Some(obj1("ok", Json::Bool(true)))
    } else if str_eq(url, "vscode://codex/open-in-targets") {
        Some(obj2("preferredTarget", Json::Null, "targets", empty_array()))
    } else if str_eq(url, "vscode://codex/extension-info") {
        Some(
            obj3(
                "appName",
                Json::str_of("Codex"),
                "platform",
                Json::str_of("linux"),
                "windowType",
                Json::str_of("electron"),
            ),
        )
    } else if str_eq(url, "vscode://codex/is-copilot-api-available") {
        Some(obj1("available", Json::Bool(false)))
    } else if str_eq(url, "vscode://codex/get-copilot-api-proxy-info") {
        Some(Json::Null)
    } else {
        None
    }
}

/// What the shell does with a fetch.
#[derive(Debug, PartialEq)]
pub enum FetchRoute {
    /// Answer with this body.
    Reply(Json),
    /// Answer with an error.
    Fail { status: u16, message: String },
    /// Answer with the current workspace roots.
    ActiveWorkspaceRoots,
    /// Answer with the current workspace roots and their labels.
    WorkspaceRootOptions,
    /// Answer with those of these paths that exist.
    PathsExist(Vec<String>),
    /// Answer with the contents of this file, if it may be read.
    ReadFileBinary(String),
    /// Answer with the entries of a workspace directory, as this request
    /// describes it.
    DirectoryEntries(Json),
    /// Answer with the Codex home directory.
    CodexHome,
    /// Answer with the operating system and architecture.
    OsInfo,
    /// Answer with the plan of the signed-in account.
    AccountInfo,
}

/// What the shell does with a fetch, in specification form.
pub enum FetchRouteV {
    Reply(JsonV),
    Fail(u16, Seq<char>),
    ActiveWorkspaceRoots,
    WorkspaceRootOptions,
    PathsExist(Seq<Seq<char>>),
    ReadFileBinary(Seq<char>),
    DirectoryEntries(JsonV),
    CodexHome,
    OsInfo,
    AccountInfo,
}

/// A fetch route in specification form.
pub open spec fn route_view(r: FetchRoute) -> FetchRouteV {
    match r {
        FetchRoute::Reply(j) => FetchRouteV::Reply(j@),
        FetchRoute::Fail { status, message } => FetchRouteV::Fail(status, message@),
        FetchRoute::ActiveWorkspaceRoots => FetchRouteV::ActiveWorkspaceRoots,
        FetchRoute::WorkspaceRootOptions => FetchRouteV::WorkspaceRootOptions,
        FetchRoute::PathsExist(ps) => FetchRouteV::PathsExist(strings_view(ps@)),
        FetchRoute::ReadFileBinary(p) => FetchRouteV::ReadFileBinary(p@),
        FetchRoute::DirectoryEntries(j) => FetchRouteV::DirectoryEntries(j@),
        FetchRoute::CodexHome => FetchRouteV::CodexHome,
        FetchRoute::OsInfo => FetchRouteV::OsInfo,
        FetchRoute::AccountInfo => FetchRouteV::AccountInfo,
    }
}

/// The value under `k` in a store, with the store afterwards: a missing key
/// gets `d`, which is then stored.
pub open spec fn read_default(
    s: Seq<(Seq<char>, JsonV)>,
    k: Seq<char>,
    d: JsonV,
) -> (Seq<(Seq<char>, JsonV)>, JsonV) {
    match member(s, k) {
        Some(v) => (s, v),
        None => (member_set(s, k, d), d),
    }
}

/// The `key` of a request body, empty when there is none.
pub open spec fn body_key(body: Option<JsonV>) -> Seq<char> {
    match body {
        Some(b) => match str_member(b, "key"@) {
            Some(k) => k,
            None => seq![],
        },
        None => seq![],
    }
}

/// What a fetch of `url` with the JSON `body` does: the global state and
/// configuration afterwards, and the answer; `Err` for a malformed request.
pub open spec fn fetch_route(
    gs: Seq<(Seq<char>, JsonV)>,
    cs: Seq<(Seq<char>, JsonV)>,
    url: Seq<char>,
    body: Option<JsonV>,
) -> Result<(Seq<(Seq<char>, JsonV)>, Seq<(Seq<char>, JsonV)>, FetchRouteV), Seq<char>> {
    match constant_reply(url) {
        Some(v) => Ok((gs, cs, FetchRouteV::Reply(v))),
        None => if url == "vscode://codex/get-global-state"@ {
            let k = body_key(body);
            let (gs2, v) = read_default(gs, k, default_global_state_v(k));
            Ok((gs2, cs, FetchRouteV::Reply(o1("value", v))))
        } else if url == "vscode://codex/get-configuration"@ {
            let k = body_key(body);
            let (cs2, v) = read_default(cs, k, default_configuration_v(k));
            Ok((gs, cs2, FetchRouteV::Reply(v)))
        } else if url == "vscode://codex/set-global-state"@ {
            match body {
                None => Err("set-global-state is missing json body"@),
                Some(b) => match str_member(b, "key"@) {
                    None => Err("set-global-state is missing key"@),
                    Some(k) => {
                        let v = or_null(b.get("value"@));
                        Ok((member_set(gs, k, v), cs, FetchRouteV::Reply(o2("ok", JsonV::Bool(true), "value", v))))
                    },
                },
            }
        } else if url == "vscode://codex/set-configuration"@ {
            match body {
                None => Err("set-configuration is missing json body"@),
                Some(b) => match str_member(b, "key"@) {
                    None => Err("set-configuration is missing key"@),
                    Some(k) => {
                        let v = or_null(b.get("value"@));
                        Ok((gs, member_set(cs, k, v), FetchRouteV::Reply(o2("ok", JsonV::Bool(true), "value", v))))
                    },
                },
            }
        } else if url == "vscode://codex/active-workspace-roots"@ {
            Ok((gs, cs, FetchRouteV::ActiveWorkspaceRoots))
        } else if url == "vscode://codex/workspace-root-options"@ {
            Ok((gs, cs, FetchRouteV::WorkspaceRootOptions))
        } else if url == "vscode://codex/paths-exist"@ {
            let paths = match body {
                Some(b) => match b.get("paths"@) {
                    Some(JsonV::Array(items)) => string_items(items),
                    _ => seq![],
                },
                None => seq![],
            };
            Ok((gs, cs, FetchRouteV::PathsExist(paths)))
        } else if url == "vscode://codex/read-file-binary"@ {
            match body {
                None => Err("read-file-binary is missing json body"@),
                Some(b) => match str_member(b, "path"@) {
                    None => Err("read-file-binary is missing path"@),
                    Some(p) => Ok((gs, cs, FetchRouteV::ReadFileBinary(p))),
                },
            }
        } else if url == "vscode://codex/workspace-directory-entries"@ {
            match body {
                None => Ok((gs, cs, FetchRouteV::Reply(o1("entries", arr0())))),
                Some(b) => Ok((gs, cs, FetchRouteV::DirectoryEntries(b))),
            }
        } else if url == "vscode://codex/codex-home"@ {
            Ok((gs, cs, FetchRouteV::CodexHome))
        } else if url == "vscode://codex/os-info"@ {
            Ok((gs, cs, FetchRouteV::OsInfo))
        } else if url == "vscode://codex/mcp-codex-config"@ {
            Ok((gs, cs, FetchRouteV::Reply(o1("config", normalized_config(applied_config(default_config_v(), cs))))))
        } else if url == "vscode://codex/developer-instructions"@ {
            let instructions = match body {
                Some(b) => or_null(b.get("baseInstructions"@)),
                None => JsonV::Null,
            };
            Ok((gs, cs, FetchRouteV::Reply(o1("instructions", instructions))))
        } else if url == "vscode://codex/account-info"@ {
            Ok((gs, cs, FetchRouteV::AccountInfo))
        } else {
            Ok((gs, cs, FetchRouteV::Fail(404, "unsupported native fetch url: "@ + url)))
        },
    }
}

/// The `key` of a request body, empty when there is none.
fn request_key(body: Option<&Json>) -> (r: String)
    ensures
        r@ == body_key(opt_view(body)),
{
    match body {
        Some(b) => match string_member(b, "key") {
            Some(k) => k,
            None => String::new(),
        },
        None => String::new(),
    }
}

/// The strings among the `paths` of a request body.
fn request_paths(body: Option<&Json>) -> (r: Vec<String>)
    ensures
        strings_view(r@) == match opt_view(body) {
            Some(b) => match b.get("paths"@) {
                Some(JsonV::Array(items)) => string_items(items),
                _ => seq![],
            },
            None => Seq::<Seq<char>>::empty(),
        },
{
    let mut out: Vec<String> = Vec::new();
    let items = match body {
        Some(b) => match b.get("paths") {
            Some(p) => match p.as_array() {
                Some(items) => items,
                None => {
                    assert(strings_view(out@) =~= Seq::<Seq<char>>::empty());
                    return out;
                },
            },
            None => {
                assert(strings_view(out@) =~= Seq::<Seq<char>>::empty());
                return out;
            },
        },
        None => {
            assert(strings_view(out@) =~= Seq::<Seq<char>>::empty());
            return out;
        },
    };
    let ghost iv = items_view(items@);
    let n = items.len();
    assert(strings_view(out@) =~= string_items(iv.take(0)));
    for i in 0..n
        invariant
            n == items@.len(),
            iv == items_view(items@),
            strings_view(out@) == string_items(iv.take(i as int)),
    {
        assert(iv.take(i + 1).drop_last() == iv.take(i as int));
        assert(iv.take(i + 1).last() == iv[i as int]);
        match items[i].as_str() {
            Some(s) => {
                let ghost before = out@;
                out.push(s.clone());
                assert(strings_view(out@) =~= strings_view(before).push(s@));
            },
            None => {},
        }
    }
    assert(iv.take(n as int) == iv);
    out
}

/// Stores the `value` of a request body under its `key`; the answer is
/// `{"ok": true, "value": value}`.
fn set_from_body(store: &mut Store, body: Option<&Json>, missing_body: &str, missing_key: &str) -> (r: Result<FetchRoute, String>)
    requires
        old(store).wf(),
    ensures
        final(store).wf(),
        match opt_view(body) {
            None => (r matches Err(m) && m@ == missing_body@) && final(store)@ == old(store)@,
            Some(b) => match str_member(b, "key"@) {
                None => (r matches Err(m) && m@ == missing_key@) && final(store)@ == old(store)@,
                Some(k) => {
                    let v = or_null(b.get("value"@));
                    &&& final(store)@ == member_set(old(store)@, k, v)
                    &&& (r matches Ok(x) && route_view(x) == FetchRouteV::Reply(o2("ok", JsonV::Bool(true), "value", v)))
                },
            },
        },
{
    let b = match body {
        Some(b) => b,
        None => {
            return Err(missing_body.to_owned());
        },
    };
    let key = match string_member(b, "key") {
        Some(k) => k,
        None => {
            return Err(missing_key.to_owned());
        },
    };
    let value = member_or_null(b, "value");
    let kept = value.copy();
    store.insert(key, value);
    Ok(FetchRoute::Reply(obj2("ok", Json::Bool(true), "value", kept)))
}

/// What the shell does with a fetch of `url` with the JSON `body` (`None`
/// when there is no body or it is not JSON).
pub fn route_fetch(state: &mut ShellState, url: &str, body: Option<&Json>) -> (r: Result<FetchRoute, String>)
    requires
        old(state).wf(),
    ensures
        final(state).wf(),
        final(state).persisted_atoms@ == old(state).persisted_atoms@,
        final(state).auth_state@ == old(state).auth_state@,
        match fetch_route(old(state).global_state@, old(state).config_state@, url@, opt_view(body)) {
            Err(m) => (r matches Err(e) && e@ == m) && final(state).global_state@ == old(state).global_state@
                && final(state).config_state@ == old(state).config_state@,
            Ok((gs, cs, route)) => (r matches Ok(x) && route_view(x) == route) && final(state).global_state@ == gs
                && final(state).config_state@ == cs,
        },
{
    match constant_fetch_reply(url) {
        Some(v) => {
            return Ok(FetchRoute::Reply(v));
        },
        None => {},
    }
    if str_eq(url, "vscode://codex/get-global-state") {
        let key = request_key(body);
        let d = default_global_state_value(key.as_str());
        let v = read_store_value_or_default(&mut state.global_state, key.as_str(), d);
        Ok(FetchRoute::Reply(obj1("value", v)))
    } else if str_eq(url, "vscode://codex/get-configuration") {
        let key = request_key(body);
        let d = default_configuration_value(key.as_str());
        let v = read_store_value_or_default(&mut state.config_state, key.as_str(), d);
        Ok(FetchRoute::Reply(v))
    } else if str_eq(url, "vscode://codex/set-global-state") {
        set_from_body(
            &mut state.global_state,
            body,
            "set-global-state is missing json body",
            "set-global-state is missing key",
        )
    } else if str_eq(url, "vscode://codex/set-configuration") {
        set_from_body(
            &mut state.config_state,
            body,
            "set-configuration is missing json body",
            "set-configuration is missing key",
        )
    } else if str_eq(url, "vscode://codex/active-workspace-roots") {
        Ok(FetchRoute::ActiveWorkspaceRoots)
    } else if str_eq(url, "vscode://codex/workspace-root-options") {
        Ok(FetchRoute::WorkspaceRootOptions)
    } else if str_eq(url, "vscode://codex/paths-exist") {
        Ok(FetchRoute::PathsExist(request_paths(body)))
    } else if str_eq(url, "vscode://codex/read-file-binary") {
        let b = match body {
            Some(b) => b,
            None => {
                return Err("read-file-binary is missing json body".to_owned());
            },
        };
        match string_member(b, "path") {
            Some(p) => Ok(FetchRoute::ReadFileBinary(p)),
            None => Err("read-file-binary is missing path".to_owned()),
        }
    } else if str_eq(url, "vscode://codex/workspace-directory-entries") {
        match body {
            None => Ok(FetchRoute::Reply(obj1("entries", empty_array()))),
            Some(b) => Ok(FetchRoute::DirectoryEntries(b.copy())),
        }
    } else if str_eq(url, "vscode://codex/codex-home") {
        Ok(FetchRoute::CodexHome)
    } else if str_eq(url, "vscode://codex/os-info") {
        Ok(FetchRoute::OsInfo)
    } else if str_eq(url, "vscode://codex/mcp-codex-config") {
        Ok(FetchRoute::Reply(obj1("config", build_mcp_config(&state.config_state))))
    } else if str_eq(url, "vscode://codex/developer-instructions") {
        let instructions = match body {
            Some(b) => member_or_null(b, "baseInstructions"),
            None => Json::Null,
        };
        Ok(FetchRoute::Reply(obj1("instructions", instructions)))
    } else if str_eq(url, "vscode://codex/account-info") {
        Ok(FetchRoute::AccountInfo)
    } else {
        let mut m = "unsupported native fetch url: ".to_owned();
        m.append(url);
        Ok(FetchRoute::Fail { status: 404, message: m })
    }
}

/// The answer with the current workspace roots.
pub fn active_roots_reply(roots: &Vec<String>) -> (r: Json)
    ensures
        r@ == o1("roots", roots_json(strings_view(roots@))),
{
    obj1("roots", roots_to_json(roots))
}

/// The answer with the current workspace roots and their labels.
pub fn root_options_reply(roots: &Vec<String>) -> (r: Json)
    ensures
        r@ == o2("roots", roots_json(strings_view(roots@)), "labels", JsonV::Object(labels_v(strings_view(roots@)))),
{
    obj2("roots", roots_to_json(roots), "labels", workspace_root_labels(roots))
}

/// The answer with the paths that exist.
pub fn paths_exist_reply(existing: &Vec<String>) -> (r: Json)
    ensures
        r@ == o1("existingPaths", roots_json(strings_view(existing@))),
{
    obj1("existingPaths", roots_to_json(existing))
}

/// The answer with a file's contents, in Base64, and its MIME type.
pub fn file_binary_reply(contents_base64: String, mime_type: &str) -> (r: Json)
    ensures
        r@ == o2("contentsBase64", JsonV::Str(contents_base64@), "mimeType", JsonV::Str(mime_type@)),
{
    obj2("contentsBase64", Json::Str(contents_base64), "mimeType", Json::str_of(mime_type))
}

/// The answer with the entries of a directory.
pub fn entries_reply(entries: Vec<Json>) -> (r: Json)
    ensures
        r@ == o1("entries", JsonV::Array(items_view(entries@))),
{
    obj1("entries", Json::Array(entries))
}

/// The Codex directory below the home directory; `/home/jade` stands in for
/// a missing home.
pub open spec fn codex_home_path(home: Option<Seq<char>>) -> Seq<char> {
    match home {
        Some(h) => h + "/.codex"@,
        None => "/home/jade"@ + "/.codex"@,
    }
}

/// The answer with the Codex home directory.
pub fn codex_home_reply(home: Option<&str>) -> (r: Json)
    ensures
        r@ == o1("path", JsonV::Str(codex_home_path(match home { Some(h) => Some(h@), None => None }))),
{
    let mut p = match home {
        Some(h) => h.to_owned(),
        None => "/home/jade".to_owned(),
    };
    p.append("/.codex");
    obj1("path", Json::Str(p))
}

/// The answer with the operating system and the machine's architecture.
pub fn os_info_reply(arch: &str) -> (r: Json)
    ensures
        r@ == o3("platform", JsonV::Str("linux"@), "arch", JsonV::Str(arch@), "hasWsl", JsonV::Bool(false)),
{
    obj3("platform", Json::str_of("linux"), "arch", Json::str_of(arch), "hasWsl", Json::Bool(false))
}

/// The plan of an account: its `planType`, else `unknown`.
pub open spec fn account_plan(account: Option<JsonV>) -> Seq<char> {
    match account {
        Some(a) => match str_member(a, "planType"@) {
            Some(p) => p,
            None => "unknown"@,
        },
        None => "unknown"@,
    }
}

/// The answer with the plan of the signed-in account.
pub fn account_info_reply(snapshot: &AuthSnapshot) -> (r: Json)
    ensures
        r@ == o1("plan", JsonV::Str(account_plan(snapshot_account(*snapshot)))),
{
    let plan = match &snapshot.account {
        Some(a) => match string_member(a, "planType") {
            Some(p) => p,
            None => "unknown".to_owned(),
        },
        None => "unknown".to_owned(),
    };
    obj1("plan", Json::Str(plan))
}

/// The Codex directory: `CODEX_HOME` when it is set, else `.codex` below
/// the home directory, else `/home/jade/.codex`.
pub open spec fn codex_dir(codex_home: Option<Seq<char>>, home: Option<Seq<char>>) -> Seq<char> {
    match codex_home {
        Some(c) => c,
        None => match home {
            Some(h) => join_path(h, ".codex"@),
            None => "/home/jade/.codex"@,
        },
    }
}

/// The Codex directory, given the values of `CODEX_HOME` and `HOME`.
pub fn codex_home_dir(codex_home: Option<&str>, home: Option<&str>) -> (r: String)
    ensures
        r@ == codex_dir(
            match codex_home { Some(c) => Some(c@), None => None },
            match home { Some(h) => Some(h@), None => None },
        ),
{
    match codex_home {
        Some(c) => c.to_owned(),
        None => match home {
            Some(h) => {
                let hc = chars_of(h);
                let dc = chars_of(".codex");
                let j = join_chars(&hc, &dc);
                string_from_chars(j.as_slice())
            },
            None => "/home/jade/.codex".to_owned(),
        },
    }
}

/// No Statsig endpoint, no constant answer: a fetch of a URL under
/// `vscode://codex/` that the constant answers do not name.
proof fn lemma_state_urls_not_constant(url: Seq<char>)
    requires
        url == "vscode://codex/get-global-state"@ || url == "vscode://codex/set-global-state"@
            || url == "vscode://codex/get-configuration"@ || url == "vscode://codex/set-configuration"@,
    ensures
        constant_reply(url) is None,
{
    reveal_strlit("vscode://codex/get-global-state");
    reveal_strlit("vscode://codex/set-global-state");
    reveal_strlit("vscode://codex/get-configuration");
    reveal_strlit("vscode://codex/set-configuration");
    reveal_strlit("https://ab.chatgpt.com/v1/initialize");
    reveal_strlit("https://featureassets.org/v1/initialize");
    reveal_strlit("https://ab.chatgpt.com/v1/rgstr");
    reveal_strlit("https://prodregistryv2.org/v1/rgstr");
    reveal_strlit("https://statsigapi.net/v1/sdk_exception");
    reveal_strlit("/wham/accounts/check");
    reveal_strlit("/wham/tasks/list");
    reveal_strlit("vscode://codex/list-pinned-threads");
    reveal_strlit("vscode://codex/list-automations");
    reveal_strlit("vscode://codex/list-pending-automation-run-threads");
    reveal_strlit("vscode://codex/git-origins");
    reveal_strlit("vscode://codex/locale-info");
    reveal_strlit("vscode://codex/inbox-items");
    reveal_strlit("vscode://codex/ide-context");
    reveal_strlit("vscode://codex/worktree-shell-environment-config");
    reveal_strlit("vscode://codex/ambient-suggestions");
    reveal_strlit("vscode://codex/ambient-suggestions-generation-statuses");
    reveal_strlit("vscode://codex/local-environments");
    reveal_strlit("vscode://codex/set-remote-control-connections-enabled");
    reveal_strlit("vscode://codex/open-in-targets");
    reveal_strlit("vscode://codex/extension-info");
    reveal_strlit("vscode://codex/is-copilot-api-available");
    reveal_strlit("vscode://codex/get-copilot-api-proxy-info");
    assert(url[0] == 'v');
    assert(url[15] == 'g' || url[15] == 's');
    assert(url.len() > 26);
    assert(!statsig_initialize(url)) by {
        assert("https://ab.chatgpt.com/v1/initialize"@[0] != url[0]);
        assert("https://featureassets.org/v1/initialize"@[0] != url[0]);
    }
    assert(!statsig_events(url)) by {
        assert("https://ab.chatgpt.com/v1/rgstr"@[0] != url[0]);
        assert("https://prodregistryv2.org/v1/rgstr"@[0] != url[0]);
    }
    assert(!statsig_exception(url)) by {
        assert("https://statsigapi.net/v1/sdk_exception"@[0] != url[0]);
    }
    assert(!"/wham/tasks/list"@.is_prefix_of(url)) by {
        assert("/wham/tasks/list"@[0] != url[0]);
    }
    assert(url != "/wham/accounts/check"@) by {
        assert("/wham/accounts/check"@[0] != url[0]);
    }
}

/// The shell offers no Copilot API: whatever the state and the body, a
/// fetch of `is-copilot-api-available` answers an object whose `available`
/// member is `false`, and changes no store.
pub proof fn law_no_copilot_api(gs: Seq<(Seq<char>, JsonV)>, cs: Seq<(Seq<char>, JsonV)>, body: Option<JsonV>)
    ensures
        fetch_route(gs, cs, "vscode://codex/is-copilot-api-available"@, body) matches Ok(
            (gs2, cs2, FetchRouteV::Reply(v)),
        ) && gs2 == gs && cs2 == cs && v.get("available"@) == Some(JsonV::Bool(false)),
{
    let url = "vscode://codex/is-copilot-api-available"@;
    reveal_strlit("https://ab.chatgpt.com/v1/initialize");
    reveal_strlit("https://featureassets.org/v1/initialize");
    reveal_strlit("https://ab.chatgpt.com/v1/rgstr");
    reveal_strlit("https://prodregistryv2.org/v1/rgstr");
    reveal_strlit("https://statsigapi.net/v1/sdk_exception");
    reveal_strlit("/wham/accounts/check");
    reveal_strlit("/wham/tasks/list");
    reveal_strlit("vscode://codex/list-pinned-threads");
    reveal_strlit("vscode://codex/list-automations");
    reveal_strlit("vscode://codex/list-pending-automation-run-threads");
    reveal_strlit("vscode://codex/git-origins");
    reveal_strlit("vscode://codex/locale-info");
    reveal_strlit("vscode://codex/inbox-items");
    reveal_strlit("vscode://codex/ide-context");
    reveal_strlit("vscode://codex/worktree-shell-environment-config");
    reveal_strlit("vscode://codex/ambient-suggestions");
    reveal_strlit("vscode://codex/ambient-suggestions-generation-statuses");
    reveal_strlit("vscode://codex/local-environments");
    reveal_strlit("vscode://codex/set-remote-control-connections-enabled");
    reveal_strlit("vscode://codex/open-in-targets");
    reveal_strlit("vscode://codex/extension-info");
    reveal_strlit("vscode://codex/is-copilot-api-available");
    reveal_strlit("available");
    assert(url[0] == 'v');
    assert(!statsig_initialize(url)) by {
        assert("https://ab.chatgpt.com/v1/initialize"@[0] != url[0]);
        assert("https://featureassets.org/v1/initialize"@[0] != url[0]);
    }
    assert(!statsig_events(url)) by {
        assert("https://ab.chatgpt.com/v1/rgstr"@[0] != url[0]);
        assert("https://prodregistryv2.org/v1/rgstr"@[0] != url[0]);
    }
    assert(!statsig_exception(url)) by {
        assert("https://statsigapi.net/v1/sdk_exception"@[0] != url[0]);
    }
    assert(!"/wham/tasks/list"@.is_prefix_of(url)) by {
        assert("/wham/tasks/list"@[0] != url[0]);
    }
    assert(constant_reply(url) == Some(o1("available", JsonV::Bool(false))));
    assert(member(seq![("available"@, JsonV::Bool(false))], "available"@) == Some(JsonV::Bool(false))) by {
        reveal_with_fuel(key_index, 2);
    }
}

/// A fetch reads back what a fetch wrote: `set-global-state` of `key` and
/// `value` stores `value` under `key` and answers `{"ok": true, "value":
/// value}`; `get-global-state` of `key` then answers `{"value": value}` and
/// changes nothing. `set-configuration` and `get-configuration` do the same
/// with the configuration, the read answering the value itself.
pub proof fn law_fetch_read_after_write(
    gs: Seq<(Seq<char>, JsonV)>,
    cs: Seq<(Seq<char>, JsonV)>,
    key: Seq<char>,
    value: JsonV,
)
    ensures
        ({
            let set_body = JsonV::Object(seq![("key"@, JsonV::Str(key)), ("value"@, value)]);
            let get_body = JsonV::Object(seq![("key"@, JsonV::Str(key))]);
            let set_answer = FetchRouteV::Reply(o2("ok", JsonV::Bool(true), "value", value));
            let gs2 = member_set(gs, key, value);
            let cs3 = member_set(cs, key, value);
            &&& fetch_route(gs, cs, "vscode://codex/set-global-state"@, Some(set_body))
                == Ok::<_, Seq<char>>((gs2, cs, set_answer))
            &&& member(gs2, key) == Some(value)
            &&& fetch_route(gs2, cs, "vscode://codex/get-global-state"@, Some(get_body))
                == Ok::<_, Seq<char>>((gs2, cs, FetchRouteV::Reply(o1("value", value))))
            &&& fetch_route(gs, cs, "vscode://codex/set-configuration"@, Some(set_body))
                == Ok::<_, Seq<char>>((gs, cs3, set_answer))
            &&& member(cs3, key) == Some(value)
            &&& fetch_route(gs, cs3, "vscode://codex/get-configuration"@, Some(get_body))
                == Ok::<_, Seq<char>>((gs, cs3, FetchRouteV::Reply(value)))
        }),
{
    let set_body = JsonV::Object(seq![("key"@, JsonV::Str(key)), ("value"@, value)]);
    let get_body = JsonV::Object(seq![("key"@, JsonV::Str(key))]);
    reveal_strlit("key");
    reveal_strlit("value");
    reveal_strlit("vscode://codex/get-global-state");
    reveal_strlit("vscode://codex/set-global-state");
    reveal_strlit("vscode://codex/get-configuration");
    reveal_strlit("vscode://codex/set-configuration");
    lemma_state_urls_not_constant("vscode://codex/get-global-state"@);
    lemma_state_urls_not_constant("vscode://codex/set-global-state"@);
    lemma_state_urls_not_constant("vscode://codex/get-configuration"@);
    lemma_state_urls_not_constant("vscode://codex/set-configuration"@);
    assert("vscode://codex/set-global-state"@ != "vscode://codex/get-global-state"@) by {
        assert("vscode://codex/set-global-state"@[15] != "vscode://codex/get-global-state"@[15]);
    }
    assert("vscode://codex/set-configuration"@ != "vscode://codex/get-configuration"@) by {
        assert("vscode://codex/set-configuration"@[15] != "vscode://codex/get-configuration"@[15]);
    }
    assert("vscode://codex/set-configuration"@ != "vscode://codex/get-global-state"@) by {
        assert("vscode://codex/set-configuration"@[15] != "vscode://codex/get-global-state"@[15]);
    }
    assert("vscode://codex/set-configuration"@ != "vscode://codex/set-global-state"@) by {
        assert("vscode://codex/set-configuration"@[19] != "vscode://codex/set-global-state"@[19]);
    }
    assert("vscode://codex/get-configuration"@ != "vscode://codex/get-global-state"@) by {
        assert("vscode://codex/get-configuration"@[19] != "vscode://codex/get-global-state"@[19]);
    }
    assert("key"@ != "value"@) by {
        assert("key"@.len() != "value"@.len());
    }
    assert(member(seq![("key"@, JsonV::Str(key)), ("value"@, value)], "key"@) == Some(JsonV::Str(key))) by {
        reveal_with_fuel(key_index, 3);
    }
    assert(member(seq![("key"@, JsonV::Str(key)), ("value"@, value)], "value"@) == Some(value)) by {
        reveal_with_fuel(key_index, 3);
    }
    assert(member(seq![("key"@, JsonV::Str(key))], "key"@) == Some(JsonV::Str(key))) by {
        reveal_with_fuel(key_index, 2);
    }
    lemma_member_set_get(gs, key, value);
    lemma_member_set_get(cs, key, value);
}

} // verus!
