//! The app-server requests the frontend sends: which the shell answers
//! itself, and how.
use vstd::prelude::*;

use crate::auth::{str_member, string_member, opt_view, claims_email, claims_plan_type, plan_type_name, chatgpt_account_v, chatgpt_account, api_key_account_v, api_key_account, extract_chatgpt_email, extract_chatgpt_plan_type, normalize_plan_type, AuthSnapshot, snapshot_account, stored_auth};
use crate::config::{build_mcp_config, default_config_v, applied_config, normalized_config, or_null, member_or_null, config_write, batch_write, apply_config_write, apply_config_batch_write, model_catalog_v, native_model_catalog};
use crate::json::{Json, JsonV, member, member_set, key_index, lemma_member_set_get, lemma_member_set_other};
use crate::messages::{obj1, obj2, empty_array, empty_object};
use crate::shell::{ShellState, o1, o2, arr0, obj0};
use crate::text::str_eq;

verus! {

/// The methods the shell answers itself even when the app-server runs.
pub open spec fn locally_handled(method: Seq<char>) -> bool {
    method == "account/read"@ || method == "account/login/start"@ || method == "account/login/cancel"@
        || method == "account/logout"@ || method == "experimentalFeature/enablement/set"@
}

/// Whether the shell answers `method` itself even when the app-server runs.
pub fn is_locally_handled_mcp_method(method: &str) -> (r: bool)
    ensures
        r == locally_handled(method@),
{
    str_eq(method, "account/read") || str_eq(method, "account/login/start") || str_eq(
        method,
        "account/login/cancel",
    ) || str_eq(method, "account/logout") || str_eq(method, "experimentalFeature/enablement/set")
}

/// What the shell does with an app-server request.
#[derive(Debug, PartialEq)]
pub enum McpRoute {
    /// Pass the request on to the app-server.
    Forward(Json),
    /// Answer with this result.
    Success(Json),
    /// Answer with this error message.
    Error(String),
    /// Answer with the signed-in account.
    AccountRead,
    /// Sign in with this access token, once its claims are decoded; the
    /// plan given with it, if any, wins over the token's.
    TokenLogin { access_token: String, plan_type: Option<String> },
}

/// What the shell does with an app-server request, in specification form.
pub enum McpRouteV {
    Forward(JsonV),
    Success(JsonV),
    Error(Seq<char>),
    AccountRead,
    TokenLogin(Seq<char>, Option<Seq<char>>),
}

/// An optional string in specification form.
pub open spec fn opt_string(s: Option<String>) -> Option<Seq<char>> {
    match s {
        Some(x) => Some(x@),
        None => None,
    }
}

/// A route in specification form.
pub open spec fn mcp_route_view(r: McpRoute) -> McpRouteV {
    match r {
        McpRoute::Forward(j) => McpRouteV::Forward(j@),
        McpRoute::Success(j) => McpRouteV::Success(j@),
        McpRoute::Error(m) => McpRouteV::Error(m@),
        McpRoute::AccountRead => McpRouteV::AccountRead,
        McpRoute::TokenLogin { access_token, plan_type } => McpRouteV::TokenLogin(access_token@, opt_string(plan_type)),
    }
}

/// The host, the request id, and what to do.
#[derive(Debug, PartialEq)]
pub struct McpDecision {
    pub host_id: String,
    pub request_id: String,
    pub route: McpRoute,
}

/// The stores an app-server request leaves, in specification form.
pub type Stores = (Seq<(Seq<char>, JsonV)>, Seq<(Seq<char>, JsonV)>);

/// The answer to `account/login/start` for a login type.
pub open spec fn login_start(
    auth: Seq<(Seq<char>, JsonV)>,
    params: JsonV,
) -> (Seq<(Seq<char>, JsonV)>, Result<McpRouteV, Seq<char>>) {
    match str_member(params, "type"@) {
        None => (auth, Err("account/login/start is missing type"@)),
        Some(t) => if t == "apiKey"@ {
            (
                member_set(member_set(auth, "authMode"@, JsonV::Str("apikey"@)), "account"@, api_key_account_v()),
                Ok(McpRouteV::Success(o1("type", JsonV::Str("apiKey"@)))),
            )
        } else if t == "chatgptAuthTokens"@ {
            match str_member(params, "accessToken"@) {
                None => (auth, Err("chatgptAuthTokens login is missing accessToken"@)),
                Some(tok) => (auth, Ok(McpRouteV::TokenLogin(tok, str_member(params, "chatgptPlanType"@)))),
            }
        } else if t == "chatgpt"@ || t == "chatgptDeviceCode"@ {
            (
                auth,
                Ok(
                    McpRouteV::Error(
                        "native login flow for "@ + t
                            + " is not implemented yet; reuse ~/.codex/auth.json or supply chatgptAuthTokens"@,
                    ),
                ),
            )
        } else {
            (auth, Ok(McpRouteV::Error("unsupported account/login/start type: "@ + t)))
        },
    }
}

/// What an app-server request with `method` does, once it is known to be
/// the shell's to answer: the stores afterwards and the route, or an error.
pub open spec fn local_method(
    cs: Seq<(Seq<char>, JsonV)>,
    auth: Seq<(Seq<char>, JsonV)>,
    request: JsonV,
    method: Seq<char>,
    has_app_server: bool,
) -> (Seq<(Seq<char>, JsonV)>, Seq<(Seq<char>, JsonV)>, Result<McpRouteV, Seq<char>>) {
    let params = or_null(request.get("params"@));
    if method == "thread/list"@ {
        (cs, auth, Ok(McpRouteV::Success(o2("data", arr0(), "nextCursor", JsonV::Null))))
    } else if method == "account/read"@ {
        (cs, auth, Ok(McpRouteV::AccountRead))
    } else if method == "account/login/start"@ {
        let (auth2, r) = login_start(auth, params);
        (cs, auth2, r)
    } else if method == "account/login/cancel"@ {
        (cs, auth, Ok(McpRouteV::Success(o1("status", JsonV::Str("notFound"@)))))
    } else if method == "account/logout"@ {
        (cs, seq![], Ok(McpRouteV::Success(obj0())))
    } else if method == "config/read"@ {
        (cs, auth, Ok(McpRouteV::Success(o1("config", normalized_config(applied_config(default_config_v(), cs))))))
    } else if method == "config/value/write"@ {
        match config_write(cs, params) {
            None => (cs, auth, Err("config/value/write is missing keyPath"@)),
            Some(cs2) => (cs2, auth, Ok(McpRouteV::Success(obj0()))),
        }
    } else if method == "config/batchWrite"@ {
        match params.get("edits"@) {
            Some(JsonV::Array(edits)) => {
                let (cs2, ok) = batch_write(cs, edits);
                if ok {
                    (cs2, auth, Ok(McpRouteV::Success(obj0())))
                } else {
                    (cs2, auth, Err("config/value/write is missing keyPath"@))
                }
            },
            _ => (cs, auth, Err("config/batchWrite is missing edits"@)),
        }
    } else if method == "configRequirements/read"@ {
        (cs, auth, Ok(McpRouteV::Success(o1("requirements", arr0()))))
    } else if method == "collaborationMode/list"@ {
        (cs, auth, Ok(McpRouteV::Success(o1("data", arr0()))))
    } else if method == "model/list"@ {
        (cs, auth, Ok(McpRouteV::Success(o2("data", model_catalog_v(), "nextCursor", JsonV::Null))))
    } else if method == "experimentalFeature/list"@ || method == "mcpServerStatus/list"@ {
        (cs, auth, Ok(McpRouteV::Success(o2("data", arr0(), "nextCursor", JsonV::Null))))
    } else if method == "experimentalFeature/enablement/set"@ {
        (cs, auth, Ok(McpRouteV::Success(obj0())))
    } else if has_app_server {
        (cs, auth, Ok(McpRouteV::Forward(request)))
    } else {
        (cs, auth, Ok(McpRouteV::Error("unsupported native mcp method: "@ + method)))
    }
}

/// What an `mcp-request` message does: the configuration and sign-in state
/// afterwards, and the host, request id and route, or an error.
pub open spec fn mcp_route(
    cs: Seq<(Seq<char>, JsonV)>,
    auth: Seq<(Seq<char>, JsonV)>,
    payload: JsonV,
    has_app_server: bool,
) -> (Seq<(Seq<char>, JsonV)>, Seq<(Seq<char>, JsonV)>, Result<(Seq<char>, Seq<char>, McpRouteV), Seq<char>>) {
    let host = match str_member(payload, "hostId"@) {
        Some(h) => h,
        None => "local"@,
    };
    match payload.get("request"@) {
        None => (cs, auth, Err("mcp-request is missing request"@)),
        Some(request) => match str_member(request, "id"@) {
            None => (cs, auth, Err("mcp-request is missing request.id"@)),
            Some(id) => match str_member(request, "method"@) {
                None => (cs, auth, Err("mcp-request is missing request.method"@)),
                Some(method) => if has_app_server && !locally_handled(method) {
                    (cs, auth, Ok((host, id, McpRouteV::Forward(request))))
                } else {
                    let (cs2, auth2, r) = local_method(cs, auth, request, method, has_app_server);
                    (
                        cs2,
                        auth2,
                        match r {
                            Ok(route) => Ok((host, id, route)),
                            Err(m) => Err(m),
                        },
                    )
                },
            },
        },
    }
}

/// Concatenation of a literal, a text and a literal.
fn join3(a: &str, b: &str, c: &str) -> (r: String)
    ensures
        r@ == a@ + b@ + c@,
{
    let mut s = a.to_owned();
    s.append(b);
    s.append(c);
    s
}

/// What `account/login/start` does with its `params`.
fn route_login_start(state: &mut ShellState, params: &Json) -> (r: Result<McpRoute, String>)
    requires
        old(state).wf(),
    ensures
        final(state).wf(),
        final(state).persisted_atoms@ == old(state).persisted_atoms@,
        final(state).global_state@ == old(state).global_state@,
        final(state).config_state@ == old(state).config_state@,
        ({
            let (auth2, res) = login_start(old(state).auth_state@, params@);
            &&& final(state).auth_state@ == auth2
            &&& match res {
                Ok(route) => (r matches Ok(x) && mcp_route_view(x) == route),
                Err(m) => (r matches Err(e) && e@ == m),
            }
        }),
{
    let t = match string_member(params, "type") {
        Some(t) => t,
        None => {
            return Err("account/login/start is missing type".to_owned());
        },
    };
    if str_eq(t.as_str(), "apiKey") {
        state.auth_state.insert("authMode".to_owned(), Json::str_of("apikey"));
        state.auth_state.insert("account".to_owned(), api_key_account());
        Ok(McpRoute::Success(obj1("type", Json::str_of("apiKey"))))
    } else if str_eq(t.as_str(), "chatgptAuthTokens") {
        match string_member(params, "accessToken") {
            None => Err("chatgptAuthTokens login is missing accessToken".to_owned()),
            Some(tok) => Ok(McpRoute::TokenLogin { access_token: tok, plan_type: string_member(params, "chatgptPlanType") }),
        }
    } else if str_eq(t.as_str(), "chatgpt") || str_eq(t.as_str(), "chatgptDeviceCode") {
        Ok(
            McpRoute::Error(
                join3(
                    "native login flow for ",
                    t.as_str(),
                    " is not implemented yet; reuse ~/.codex/auth.json or supply chatgptAuthTokens",
                ),
            ),
        )
    } else {
        let msg = join3("unsupported account/login/start type: ", t.as_str(), "");
        proof {
            reveal_strlit("");
            assert(msg@ =~= "unsupported account/login/start type: "@ + t@);
        }
        Ok(McpRoute::Error(msg))
    }
}

/// What the shell does with an app-server request that it answers itself
/// (or passes on, when the method is not its own and the app-server runs).
fn route_local_method(state: &mut ShellState, request: &Json, method: &str, has_app_server: bool) -> (r: Result<
    McpRoute,
    String,
>)
    requires
        old(state).wf(),
    ensures
        final(state).wf(),
        final(state).persisted_atoms@ == old(state).persisted_atoms@,
        final(state).global_state@ == old(state).global_state@,
        ({
            let (cs2, auth2, res) = local_method(
                old(state).config_state@,
                old(state).auth_state@,
                request@,
                method@,
                has_app_server,
            );
            &&& final(state).config_state@ == cs2
            &&& final(state).auth_state@ == auth2
            &&& match res {
                Ok(route) => (r matches Ok(x) && mcp_route_view(x) == route),
                Err(m) => (r matches Err(e) && e@ == m),
            }
        }),
{
    let params = member_or_null(request, "params");
    if str_eq(method, "thread/list") {
        Ok(McpRoute::Success(obj2("data", empty_array(), "nextCursor", Json::Null)))
    } else if str_eq(method, "account/read") {
        Ok(McpRoute::AccountRead)
    } else if str_eq(method, "account/login/start") {
        route_login_start(state, &params)
    } else if str_eq(method, "account/login/cancel") {
        Ok(McpRoute::Success(obj1("status", Json::str_of("notFound"))))
    } else if str_eq(method, "account/logout") {
        state.auth_state.clear();
        Ok(McpRoute::Success(empty_object()))
    } else if str_eq(method, "config/read") {
        Ok(McpRoute::Success(obj1("config", build_mcp_config(&state.config_state))))
    } else if str_eq(method, "config/value/write") {
        match apply_config_write(&mut state.config_state, &params) {
            Ok(()) => Ok(McpRoute::Success(empty_object())),
            Err(m) => Err(m),
        }
    } else if str_eq(method, "config/batchWrite") {
        match apply_config_batch_write(&mut state.config_state, &params) {
            Ok(()) => Ok(McpRoute::Success(empty_object())),
            Err(m) => Err(m),
        }
    } else if str_eq(method, "configRequirements/read") {
        Ok(McpRoute::Success(obj1("requirements", empty_array())))
    } else if str_eq(method, "collaborationMode/list") {
        Ok(McpRoute::Success(obj1("data", empty_array())))
    } else if str_eq(method, "model/list") {
        Ok(McpRoute::Success(obj2("data", native_model_catalog(), "nextCursor", Json::Null)))
    } else if str_eq(method, "experimentalFeature/list") || str_eq(method, "mcpServerStatus/list") {
        Ok(McpRoute::Success(obj2("data", empty_array(), "nextCursor", Json::Null)))
    } else if str_eq(method, "experimentalFeature/enablement/set") {
        Ok(McpRoute::Success(empty_object()))
    } else if has_app_server {
        Ok(McpRoute::Forward(request.copy()))
    } else {
        let msg = join3("unsupported native mcp method: ", method, "");
        proof {
            reveal_strlit("");
            assert(msg@ =~= "unsupported native mcp method: "@ + method@);
        }
        Ok(McpRoute::Error(msg))
    }
}

/// What the shell does with the payload of an `mcp-request` message: the
/// host and request id to answer, and the route; the configuration and
/// sign-in state change as the method asks.
pub fn route_mcp(state: &mut ShellState, payload: &Json, has_app_server: bool) -> (r: Result<McpDecision, String>)
    requires
        old(state).wf(),
    ensures
        final(state).wf(),
        final(state).persisted_atoms@ == old(state).persisted_atoms@,
        final(state).global_state@ == old(state).global_state@,
        ({
            let (cs2, auth2, res) = mcp_route(old(state).config_state@, old(state).auth_state@, payload@, has_app_server);
            &&& final(state).config_state@ == cs2
            &&& final(state).auth_state@ == auth2
            &&& match res {
                Ok((h, id, route)) => (r matches Ok(d) && d.host_id@ == h && d.request_id@ == id
                    && mcp_route_view(d.route) == route),
                Err(m) => (r matches Err(e) && e@ == m),
            }
        }),
{
    let host_id = match string_member(payload, "hostId") {
        Some(h) => h,
        None => "local".to_owned(),
    };
    let request = match payload.get("request") {
        Some(x) => x,
        None => {
            return Err("mcp-request is missing request".to_owned());
        },
    };
    let request_id = match string_member(request, "id") {
        Some(x) => x,
        None => {
            return Err("mcp-request is missing request.id".to_owned());
        },
    };
    let method = match string_member(request, "method") {
        Some(x) => x,
        None => {
            return Err("mcp-request is missing request.method".to_owned());
        },
    };
    if has_app_server && !is_locally_handled_mcp_method(method.as_str()) {
        return Ok(McpDecision { host_id, request_id, route: McpRoute::Forward(request.copy()) });
    }
    match route_local_method(state, request, method.as_str(), has_app_server) {
        Ok(route) => Ok(McpDecision { host_id, request_id, route }),
        Err(m) => Err(m),
    }
}

/// What a `chatgptAuthTokens` sign-in does once its access token's claims
/// are decoded (`None` when they could not be): the sign-in state
/// afterwards, and the result or the error.
pub open spec fn token_login(
    auth: Seq<(Seq<char>, JsonV)>,
    claims: Option<JsonV>,
    plan_param: Option<Seq<char>>,
) -> (Seq<(Seq<char>, JsonV)>, Result<JsonV, Seq<char>>) {
    match claims {
        None => (auth, Err("failed to decode chatgpt access token claims"@)),
        Some(c) => match claims_email(c) {
            None => (auth, Err("chatgptAuthTokens login is missing email claims"@)),
            Some(email) => {
                let plan = plan_type_name(
                    match plan_param {
                        Some(p) => Some(p),
                        None => claims_plan_type(c),
                    },
                );
                (
                    member_set(
                        member_set(auth, "authMode"@, JsonV::Str("chatgptAuthTokens"@)),
                        "account"@,
                        chatgpt_account_v(email, plan),
                    ),
                    Ok(o1("type", JsonV::Str("chatgptAuthTokens"@))),
                )
            },
        },
    }
}

/// Completes a `chatgptAuthTokens` sign-in from the decoded claims of its
/// access token and the plan given with the request, if any: stores the
/// ChatGPT account and answers `{"type": "chatgptAuthTokens"}`.
pub fn complete_token_login(state: &mut ShellState, claims: Option<&Json>, plan_type: Option<&str>) -> (r: Result<
    Json,
    String,
>)
    requires
        old(state).wf(),
    ensures
        final(state).wf(),
        final(state).persisted_atoms@ == old(state).persisted_atoms@,
        final(state).global_state@ == old(state).global_state@,
        final(state).config_state@ == old(state).config_state@,
        ({
            let plan_param = match plan_type {
                Some(p) => Some(p@),
                None => None,
            };
            let (auth2, res) = token_login(old(state).auth_state@, opt_view(claims), plan_param);
            &&& final(state).auth_state@ == auth2
            &&& match res {
                Ok(v) => (r matches Ok(x) && x@ == v),
                Err(m) => (r matches Err(e) && e@ == m),
            }
        }),
{
    let c = match claims {
        Some(c) => c,
        None => {
            return Err("failed to decode chatgpt access token claims".to_owned());
        },
    };
    let email = match extract_chatgpt_email(c) {
        Some(e) => e,
        None => {
            return Err("chatgptAuthTokens login is missing email claims".to_owned());
        },
    };
    let claimed = extract_chatgpt_plan_type(c);
    let plan = match plan_type {
        Some(p) => normalize_plan_type(Some(p)),
        None => match &claimed {
            Some(p) => normalize_plan_type(Some(p.as_str())),
            None => normalize_plan_type(None),
        },
    };
    state.auth_state.insert("authMode".to_owned(), Json::str_of("chatgptAuthTokens"));
    state.auth_state.insert("account".to_owned(), chatgpt_account(email, plan));
    Ok(obj1("type", Json::str_of("chatgptAuthTokens")))
}

/// The answer to `account/read` for the account the shell reports, if any.
pub open spec fn account_read_v(account: Option<JsonV>) -> JsonV {
    o2("account", or_null(account), "requiresOpenaiAuth", JsonV::Bool(account is None))
}

/// The answer to `account/read`: the account, `null` when nobody is signed
/// in, and whether the frontend must ask for a sign-in.
pub fn account_read_reply(snapshot: &AuthSnapshot) -> (r: Json)
    ensures
        r@ == account_read_v(snapshot_account(*snapshot)),
{
    let account = match &snapshot.account {
        Some(a) => a.copy(),
        None => Json::Null,
    };
    obj2("account", account, "requiresOpenaiAuth", Json::Bool(snapshot.account.is_none()))
}

/// Signing in and out through the shell shows in what it reports: after an
/// `account/login/start` of type `apiKey`, the sign-in state holds the
/// API-key account (so `account/read` answers it); after `account/logout`,
/// the state is empty (so the CLI's `auth.json` decides again). Neither
/// touches the configuration.
pub proof fn law_sign_in_and_out(
    cs: Seq<(Seq<char>, JsonV)>,
    auth: Seq<(Seq<char>, JsonV)>,
    id: Seq<char>,
    has_app_server: bool,
)
    ensures
        ({
            let login = JsonV::Object(
                seq![
                    (
                        "request"@,
                        JsonV::Object(
                            seq![
                                ("id"@, JsonV::Str(id)),
                                ("method"@, JsonV::Str("account/login/start"@)),
                                ("params"@, JsonV::Object(seq![("type"@, JsonV::Str("apiKey"@))])),
                            ],
                        ),
                    ),
                ],
            );
            let logout = JsonV::Object(
                seq![
                    (
                        "request"@,
                        JsonV::Object(
                            seq![("id"@, JsonV::Str(id)), ("method"@, JsonV::Str("account/logout"@))],
                        ),
                    ),
                ],
            );
            let (cs1, auth1, r1) = mcp_route(cs, auth, login, has_app_server);
            let (cs2, auth2, r2) = mcp_route(cs, auth, logout, has_app_server);
            &&& r1 is Ok
            &&& cs1 == cs
            &&& stored_auth(auth1) == Some(Some(api_key_account_v()))
            &&& r2 is Ok
            &&& cs2 == cs
            &&& auth2.len() == 0
            &&& stored_auth(auth2) is None
        }),
{
    reveal_strlit("request");
    reveal_strlit("hostId");
    reveal_strlit("id");
    reveal_strlit("method");
    reveal_strlit("params");
    reveal_strlit("type");
    reveal_strlit("apiKey");
    reveal_strlit("account/login/start");
    reveal_strlit("account/logout");
    reveal_strlit("account/read");
    reveal_strlit("account/login/cancel");
    reveal_strlit("experimentalFeature/enablement/set");
    reveal_strlit("thread/list");
    reveal_strlit("chatgptAuthTokens");
    reveal_strlit("authMode");
    reveal_strlit("account");
    assert("request"@.len() == 7 && "hostId"@.len() == 6 && "id"@.len() == 2 && "method"@.len() == 6
        && "params"@.len() == 6 && "type"@.len() == 4);
    assert("method"@ != "hostId"@) by {
        assert("method"@[0] != "hostId"@[0]);
    }
    assert("method"@ != "params"@) by {
        assert("method"@[0] != "params"@[0]);
    }
    assert("account/login/start"@.len() == 19 && "account/logout"@.len() == 14 && "account/read"@.len() == 12
        && "account/login/cancel"@.len() == 20 && "thread/list"@.len() == 11
        && "experimentalFeature/enablement/set"@.len() == 34);
    assert("apiKey"@.len() == 6 && "chatgptAuthTokens"@.len() == 17);
    let login_req = JsonV::Object(
        seq![
            ("id"@, JsonV::Str(id)),
            ("method"@, JsonV::Str("account/login/start"@)),
            ("params"@, JsonV::Object(seq![("type"@, JsonV::Str("apiKey"@))])),
        ],
    );
    let login = JsonV::Object(seq![("request"@, login_req)]);
    let logout_req = JsonV::Object(seq![("id"@, JsonV::Str(id)), ("method"@, JsonV::Str("account/logout"@))]);
    let logout = JsonV::Object(seq![("request"@, logout_req)]);
    let params = JsonV::Object(seq![("type"@, JsonV::Str("apiKey"@))]);
    assert(login.get("request"@) == Some(login_req) && logout.get("request"@) == Some(logout_req)) by {
        reveal_with_fuel(key_index, 2);
    }
    assert(str_member(login, "hostId"@) is None && str_member(logout, "hostId"@) is None) by {
        reveal_with_fuel(key_index, 2);
    }
    assert(str_member(login_req, "id"@) == Some(id) && str_member(logout_req, "id"@) == Some(id)) by {
        reveal_with_fuel(key_index, 2);
    }
    assert(str_member(login_req, "method"@) == Some("account/login/start"@)) by {
        reveal_with_fuel(key_index, 3);
    }
    assert(str_member(logout_req, "method"@) == Some("account/logout"@)) by {
        reveal_with_fuel(key_index, 3);
    }
    assert(login_req.get("params"@) == Some(params)) by {
        reveal_with_fuel(key_index, 4);
    }
    assert(str_member(params, "type"@) == Some("apiKey"@)) by {
        reveal_with_fuel(key_index, 2);
    }
    let a1 = member_set(auth, "authMode"@, JsonV::Str("apikey"@));
    lemma_member_set_get(a1, "account"@, api_key_account_v());
}

/// A request to an app-server method, as the frontend sends it, without a
/// host.
pub open spec fn mcp_payload(id: Seq<char>, method: Seq<char>, params: Option<JsonV>) -> JsonV {
    JsonV::Object(
        seq![
            (
                "request"@,
                JsonV::Object(
                    match params {
                        Some(p) => seq![("id"@, JsonV::Str(id)), ("method"@, JsonV::Str(method)), ("params"@, p)],
                        None => seq![("id"@, JsonV::Str(id)), ("method"@, JsonV::Str(method))],
                    },
                ),
            ),
        ],
    )
}

/// An API-key sign-in is what `account/read` reports next: the sign-in is
/// answered `{"type": "apiKey"}` for host `local`, and stores `authMode`
/// `apikey` and the API-key account; the `account/read` that follows goes to
/// the shell itself, and the stored sign-in answers it with that account and
/// no sign-in asked for.
pub proof fn law_sign_in_then_read(
    cs: Seq<(Seq<char>, JsonV)>,
    auth: Seq<(Seq<char>, JsonV)>,
    id1: Seq<char>,
    id2: Seq<char>,
    has_app_server: bool,
)
    ensures
        ({
            let login = mcp_payload(id1, "account/login/start"@, Some(JsonV::Object(seq![("type"@, JsonV::Str("apiKey"@))])));
            let read = mcp_payload(id2, "account/read"@, None);
            let (cs1, auth1, r1) = mcp_route(cs, auth, login, has_app_server);
            &&& cs1 == cs
            &&& r1 == Ok::<_, Seq<char>>(("local"@, id1, McpRouteV::Success(o1("type", JsonV::Str("apiKey"@)))))
            &&& member(auth1, "authMode"@) == Some(JsonV::Str("apikey"@))
            &&& member(auth1, "account"@) == Some(api_key_account_v())
            &&& mcp_route(cs, auth1, read, has_app_server) == (cs, auth1, Ok::<_, Seq<char>>(("local"@, id2, McpRouteV::AccountRead)))
            &&& stored_auth(auth1) == Some(Some(api_key_account_v()))
            &&& account_read_v(Some(api_key_account_v())) == o2(
                "account",
                api_key_account_v(),
                "requiresOpenaiAuth",
                JsonV::Bool(false),
            )
        }),
{
    reveal_strlit("request");
    reveal_strlit("hostId");
    reveal_strlit("id");
    reveal_strlit("method");
    reveal_strlit("params");
    reveal_strlit("type");
    reveal_strlit("apiKey");
    reveal_strlit("account/login/start");
    reveal_strlit("account/logout");
    reveal_strlit("account/read");
    reveal_strlit("account/login/cancel");
    reveal_strlit("experimentalFeature/enablement/set");
    reveal_strlit("thread/list");
    reveal_strlit("chatgptAuthTokens");
    reveal_strlit("authMode");
    reveal_strlit("account");
    reveal_strlit("local");
    assert("request"@.len() == 7 && "hostId"@.len() == 6 && "id"@.len() == 2 && "method"@.len() == 6
        && "params"@.len() == 6 && "type"@.len() == 4);
    assert("method"@ != "hostId"@) by {
        assert("method"@[0] != "hostId"@[0]);
    }
    assert("method"@ != "params"@) by {
        assert("method"@[0] != "params"@[0]);
    }
    assert("account/login/start"@.len() == 19 && "account/logout"@.len() == 14 && "account/read"@.len() == 12
        && "account/login/cancel"@.len() == 20 && "thread/list"@.len() == 11
        && "experimentalFeature/enablement/set"@.len() == 34);
    assert("apiKey"@.len() == 6 && "chatgptAuthTokens"@.len() == 17);
    assert("authMode"@.len() == 8 && "account"@.len() == 7);
    let params = JsonV::Object(seq![("type"@, JsonV::Str("apiKey"@))]);
    let login_req = JsonV::Object(
        seq![("id"@, JsonV::Str(id1)), ("method"@, JsonV::Str("account/login/start"@)), ("params"@, params)],
    );
    let login = mcp_payload(id1, "account/login/start"@, Some(params));
    let read_req = JsonV::Object(seq![("id"@, JsonV::Str(id2)), ("method"@, JsonV::Str("account/read"@))]);
    let read = mcp_payload(id2, "account/read"@, None);
    assert(login.get("request"@) == Some(login_req) && read.get("request"@) == Some(read_req)) by {
        reveal_with_fuel(key_index, 2);
    }
    assert(str_member(login, "hostId"@) is None && str_member(read, "hostId"@) is None) by {
        reveal_with_fuel(key_index, 2);
    }
    assert(str_member(login_req, "id"@) == Some(id1) && str_member(read_req, "id"@) == Some(id2)) by {
        reveal_with_fuel(key_index, 2);
    }
    assert(str_member(login_req, "method"@) == Some("account/login/start"@)) by {
        reveal_with_fuel(key_index, 3);
    }
    assert(str_member(read_req, "method"@) == Some("account/read"@)) by {
        reveal_with_fuel(key_index, 3);
    }
    assert(login_req.get("params"@) == Some(params)) by {
        reveal_with_fuel(key_index, 4);
    }
    assert(str_member(params, "type"@) == Some("apiKey"@)) by {
        reveal_with_fuel(key_index, 2);
    }
    let a1 = member_set(auth, "authMode"@, JsonV::Str("apikey"@));
    lemma_member_set_get(auth, "authMode"@, JsonV::Str("apikey"@));
    lemma_member_set_get(a1, "account"@, api_key_account_v());
    lemma_member_set_other(a1, "account"@, api_key_account_v(), "authMode"@);
}

} // verus!
