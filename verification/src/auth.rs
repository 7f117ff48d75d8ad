//! Who is signed in: the account the shell reports, from its own sign-in
//! state or from the Codex CLI's `auth.json`.
use vstd::prelude::*;

use crate::json::{Json, JsonV, pairs_view, entry, member};
use crate::store::Store;
use crate::text::str_eq;
use crate::workspace::{trim, trimmed};

verus! {

/// The plan names the shell passes on; anything else is `unknown`.
pub open spec fn plan_type_name(plan: Option<Seq<char>>) -> &'static str {
    match plan {
        None => "unknown",
        Some(p) => if p == "free"@ {
            "free"
        } else if p == "go"@ {
            "go"
        } else if p == "plus"@ {
            "plus"
        } else if p == "pro"@ {
            "pro"
        } else if p == "team"@ {
            "team"
        } else if p == "self_serve_business_usage_based"@ {
            "self_serve_business_usage_based"
        } else if p == "business"@ {
            "business"
        } else if p == "enterprise_cbp_usage_based"@ {
            "enterprise_cbp_usage_based"
        } else if p == "enterprise"@ {
            "enterprise"
        } else if p == "edu"@ {
            "edu"
        } else {
            "unknown"
        },
    }
}

/// The plan name the shell passes on for a plan type.
pub fn normalize_plan_type(plan: Option<&str>) -> (r: &'static str)
    ensures
        r == plan_type_name(match plan { Some(p) => Some(p@), None => None }),
{
    let p = match plan {
        Some(p) => p,
        None => {
            return "unknown";
        },
    };
    if str_eq(p, "free") {
        "free"
    } else if str_eq(p, "go") {
        "go"
    } else if str_eq(p, "plus") {
        "plus"
    } else if str_eq(p, "pro") {
        "pro"
    } else if str_eq(p, "team") {
        "team"
    } else if str_eq(p, "self_serve_business_usage_based") {
        "self_serve_business_usage_based"
    } else if str_eq(p, "business") {
        "business"
    } else if str_eq(p, "enterprise_cbp_usage_based") {
        "enterprise_cbp_usage_based"
    } else if str_eq(p, "enterprise") {
        "enterprise"
    } else if str_eq(p, "edu") {
        "edu"
    } else {
        "unknown"
    }
}

/// The ChatGPT plan types the shell knows and reports as they are.
pub open spec fn known_plans() -> Seq<Seq<char>> {
    seq![
        "free"@,
        "go"@,
        "plus"@,
        "pro"@,
        "team"@,
        "self_serve_business_usage_based"@,
        "business"@,
        "enterprise_cbp_usage_based"@,
        "enterprise"@,
        "edu"@,
    ]
}

/// Every known plan type is passed on as itself: the account of a `pro`
/// plan is reported as `pro`, and so on for each name of `known_plans`.
pub proof fn law_known_plan_passed_on(i: int)
    requires
        0 <= i < known_plans().len(),
    ensures
        plan_type_name(Some(known_plans()[i]))@ == known_plans()[i],
{
    reveal_strlit("free");
    reveal_strlit("go");
    reveal_strlit("plus");
    reveal_strlit("pro");
    reveal_strlit("team");
    reveal_strlit("self_serve_business_usage_based");
    reveal_strlit("business");
    reveal_strlit("enterprise_cbp_usage_based");
    reveal_strlit("enterprise");
    reveal_strlit("edu");
    let ks = known_plans();
    assert(ks[0] == "free"@ && ks[1] == "go"@ && ks[2] == "plus"@ && ks[3] == "pro"@ && ks[4] == "team"@);
    assert(ks[5] == "self_serve_business_usage_based"@ && ks[6] == "business"@);
    assert(ks[7] == "enterprise_cbp_usage_based"@ && ks[8] == "enterprise"@ && ks[9] == "edu"@);
}

/// A plan type that is not known, or none at all, is reported as
/// `unknown`.
pub proof fn law_unknown_plan(plan: Option<Seq<char>>)
    requires
        plan matches Some(p) ==> forall|i: int| 0 <= i < known_plans().len() ==> #[trigger] known_plans()[i] != p,
    ensures
        plan_type_name(plan)@ == "unknown"@,
{
    if let Some(p) = plan {
        let ks = known_plans();
        assert(ks[0] != p && ks[1] != p && ks[2] != p && ks[3] != p && ks[4] != p);
        assert(ks[5] != p && ks[6] != p && ks[7] != p && ks[8] != p && ks[9] != p);
    }
}

/// The string at member `k` of `j`, if it is a string.
pub open spec fn str_member(j: JsonV, k: Seq<char>) -> Option<Seq<char>> {
    match j.get(k) {
        Some(JsonV::Str(s)) => Some(s),
        _ => None,
    }
}

/// The e-mail address in a token's claims: `email`, else the `email` of the
/// OpenAI profile claim.
pub open spec fn claims_email(claims: JsonV) -> Option<Seq<char>> {
    match str_member(claims, "email"@) {
        Some(e) => Some(e),
        None => match claims.get("https://api.openai.com/profile"@) {
            Some(p) => str_member(p, "email"@),
            None => None,
        },
    }
}

/// The ChatGPT plan in a token's claims.
pub open spec fn claims_plan_type(claims: JsonV) -> Option<Seq<char>> {
    match claims.get("https://api.openai.com/auth"@) {
        Some(a) => str_member(a, "chatgpt_plan_type"@),
        None => None,
    }
}

/// The string at member `key` of `j`.
pub fn string_member(j: &Json, key: &str) -> (r: Option<String>)
    ensures
        match str_member(j@, key@) {
            Some(s) => (r matches Some(x) && x@ == s),
            None => r is None,
        },
{
    match j.get(key) {
        Some(v) => match v.as_str() {
            Some(s) => Some(s.clone()),
            None => None,
        },
        None => None,
    }
}

/// The e-mail address in a token's claims.
pub fn extract_chatgpt_email(claims: &Json) -> (r: Option<String>)
    ensures
        match claims_email(claims@) {
            Some(s) => (r matches Some(x) && x@ == s),
            None => r is None,
        },
{
    match string_member(claims, "email") {
        Some(e) => Some(e),
        None => match claims.get("https://api.openai.com/profile") {
            Some(p) => string_member(p, "email"),
            None => None,
        },
    }
}

/// The ChatGPT plan in a token's claims.
pub fn extract_chatgpt_plan_type(claims: &Json) -> (r: Option<String>)
    ensures
        match claims_plan_type(claims@) {
            Some(s) => (r matches Some(x) && x@ == s),
            None => r is None,
        },
{
    match claims.get("https://api.openai.com/auth") {
        Some(a) => string_member(a, "chatgpt_plan_type"),
        None => None,
    }
}

/// The account reported for a ChatGPT sign-in.
pub open spec fn chatgpt_account_v(email: Seq<char>, plan: &'static str) -> JsonV {
    JsonV::Object(
        seq![
            ("type"@, JsonV::Str("chatgpt"@)),
            ("email"@, JsonV::Str(email)),
            ("planType"@, JsonV::Str(plan@)),
        ],
    )
}

/// The account reported for a ChatGPT sign-in.
pub fn chatgpt_account(email: String, plan: &'static str) -> (r: Json)
    ensures
        r@ == chatgpt_account_v(email@, plan),
{
    let ghost e = email@;
    let mut ps: Vec<(String, Json)> = Vec::new();
    ps.push(entry("type", Json::str_of("chatgpt")));
    ps.push(entry("email", Json::Str(email)));
    ps.push(entry("planType", Json::str_of(plan)));
    assert(pairs_view(ps@) =~= chatgpt_account_v(e, plan)->Object_0);
    Json::Object(ps)
}

/// The account reported for an API-key sign-in.
pub open spec fn api_key_account_v() -> JsonV {
    JsonV::Object(seq![("type"@, JsonV::Str("apiKey"@))])
}

/// The account reported for an API-key sign-in.
pub fn api_key_account() -> (r: Json)
    ensures
        r@ == api_key_account_v(),
{
    let mut ps: Vec<(String, Json)> = Vec::new();
    ps.push(entry("type", Json::str_of("apiKey")));
    assert(pairs_view(ps@) =~= api_key_account_v()->Object_0);
    Json::Object(ps)
}

/// The account, if any, that the shell reports.
#[derive(Debug, PartialEq)]
pub struct AuthSnapshot {
    pub account: Option<Json>,
}

/// The account view of a snapshot.
pub open spec fn snapshot_account(s: AuthSnapshot) -> Option<JsonV> {
    match s.account {
        Some(a) => Some(a@),
        None => None,
    }
}

/// The sign-in the shell itself holds, when it holds one: a string
/// `authMode` or an `account` in its sign-in state. `None` when it holds
/// neither, and the CLI's `auth.json` decides.
pub open spec fn stored_auth(state: Seq<(Seq<char>, JsonV)>) -> Option<Option<JsonV>> {
    let mode_is_str = match member(state, "authMode"@) {
        Some(JsonV::Str(_)) => true,
        _ => false,
    };
    let account = member(state, "account"@);
    if mode_is_str || account is Some {
        Some(account)
    } else {
        None
    }
}

/// The sign-in the shell itself holds, if it holds one.
pub fn stored_auth_snapshot(auth_state: &Store) -> (r: Option<AuthSnapshot>)
    ensures
        match stored_auth(auth_state@) {
            None => r is None,
            Some(a) => (r matches Some(s) && snapshot_account(s) == a),
        },
{
    let mode_is_str = match auth_state.get("authMode") {
        Some(v) => v.as_str().is_some(),
        None => false,
    };
    let account = match auth_state.get("account") {
        Some(a) => Some(a.copy()),
        None => None,
    };
    if mode_is_str || account.is_some() {
        Some(AuthSnapshot { account })
    } else {
        None
    }
}

/// The account that the CLI's `auth.json` gives: an API key that is not
/// blank makes an API-key account; the `chatgpt` mode makes a ChatGPT
/// account when the ID token's claims, else the access token's, hold an
/// e-mail address.
pub open spec fn local_account(
    auth_json: JsonV,
    id_claims: Option<JsonV>,
    access_claims: Option<JsonV>,
) -> Option<JsonV> {
    let key_ok = match str_member(auth_json, "OPENAI_API_KEY"@) {
        Some(k) => trimmed(k).len() > 0,
        None => false,
    };
    if key_ok {
        Some(api_key_account_v())
    } else if str_member(auth_json, "auth_mode"@) == Some("chatgpt"@) {
        let email = match id_claims {
            Some(c) => match claims_email(c) {
                Some(e) => Some(e),
                None => match access_claims {
                    Some(a) => claims_email(a),
                    None => None,
                },
            },
            None => match access_claims {
                Some(a) => claims_email(a),
                None => None,
            },
        };
        let plan = match id_claims {
            Some(c) => match claims_plan_type(c) {
                Some(p) => Some(p),
                None => match access_claims {
                    Some(a) => claims_plan_type(a),
                    None => None,
                },
            },
            None => match access_claims {
                Some(a) => claims_plan_type(a),
                None => None,
            },
        };
        match email {
            Some(e) => Some(chatgpt_account_v(e, plan_type_name(plan))),
            None => None,
        }
    } else {
        None
    }
}

/// An optional JSON value in specification form.
pub open spec fn opt_view(j: Option<&Json>) -> Option<JsonV> {
    match j {
        Some(x) => Some(x@),
        None => None,
    }
}

/// The account that the CLI's `auth.json` gives, with the claims of its
/// ID token and access token where they decode.
pub fn local_auth_snapshot(auth_json: &Json, id_claims: Option<&Json>, access_claims: Option<&Json>) -> (r: AuthSnapshot)
    ensures
        snapshot_account(r) == local_account(auth_json@, opt_view(id_claims), opt_view(access_claims)),
{
    let key_ok = match string_member(auth_json, "OPENAI_API_KEY") {
        Some(k) => trim(k.as_str()).len() > 0,
        None => false,
    };
    if key_ok {
        return AuthSnapshot { account: Some(api_key_account()) };
    }
    let mode_is_chatgpt = match string_member(auth_json, "auth_mode") {
        Some(m) => str_eq(m.as_str(), "chatgpt"),
        None => false,
    };
    if !mode_is_chatgpt {
        return AuthSnapshot { account: None };
    }
    let email = match id_claims {
        Some(c) => match extract_chatgpt_email(c) {
            Some(e) => Some(e),
            None => match access_claims {
                Some(a) => extract_chatgpt_email(a),
                None => None,
            },
        },
        None => match access_claims {
            Some(a) => extract_chatgpt_email(a),
            None => None,
        },
    };
    let plan = match id_claims {
        Some(c) => match extract_chatgpt_plan_type(c) {
            Some(p) => Some(p),
            None => match access_claims {
                Some(a) => extract_chatgpt_plan_type(a),
                None => None,
            },
        },
        None => match access_claims {
            Some(a) => extract_chatgpt_plan_type(a),
            None => None,
        },
    };
    match email {
        Some(e) => {
            let plan_name = match &plan {
                Some(p) => normalize_plan_type(Some(p.as_str())),
                None => normalize_plan_type(None),
            };
            AuthSnapshot { account: Some(chatgpt_account(e, plan_name)) }
        },
        None => AuthSnapshot { account: None },
    }
}

/// The ID or access token stored in `auth.json` under `tokens`.
pub fn auth_token(auth_json: &Json, name: &str) -> (r: Option<String>)
    ensures
        match auth_json@.get("tokens"@) {
            Some(t) => match str_member(t, name@) {
                Some(s) => (r matches Some(x) && x@ == s),
                None => r is None,
            },
            None => r is None,
        },
{
    match auth_json.get("tokens") {
        Some(t) => string_member(t, name),
        None => None,
    }
}

} // verus!
