//! The shell's configuration: default values, the configuration it reports
//! to the frontend, and the edits the frontend writes.
use vstd::prelude::*;

use crate::json::{Json, JsonV, json_view, entry, pairs_view, items_view, member, member_set, member_remove, pruned, set_path, get_path, set_json_path, prune_json_nulls, find_key, lemma_key_index, lemma_member_remove_other, lemma_get_path_pruned, law_set_then_get_path, key_index, unique_keys, paths_apart, lemma_set_path_apart};
use crate::messages::{empty_array, empty_object};
use crate::store::Store;
use crate::text::{split_all, str_eq};

verus! {

/// The defaults of the `apps._default` entry of the configuration.
pub open spec fn default_app_v() -> JsonV {
    JsonV::Object(
        seq![
            ("enabled"@, JsonV::Bool(true)),
            ("destructive_enabled"@, JsonV::Bool(false)),
            ("open_world_enabled"@, JsonV::Bool(false)),
            ("default_tools_approval_mode"@, JsonV::Null),
            ("default_tools_enabled"@, JsonV::Null),
            ("tools"@, JsonV::Null),
        ],
    )
}

/// The configuration before any key is set.
pub open spec fn default_config_v() -> JsonV {
    JsonV::Object(
        seq![
            ("model"@, JsonV::Null),
            ("review_model"@, JsonV::Null),
            ("model_context_window"@, JsonV::Null),
            ("model_auto_compact_token_limit"@, JsonV::Null),
            ("model_provider"@, JsonV::Null),
            ("approval_policy"@, JsonV::Null),
            ("approvals_reviewer"@, JsonV::Null),
            ("sandbox_mode"@, JsonV::Null),
            ("sandbox_workspace_write"@, JsonV::Null),
            ("forced_chatgpt_workspace_id"@, JsonV::Null),
            ("forced_login_method"@, JsonV::Null),
            ("web_search"@, JsonV::Null),
            ("tools"@, JsonV::Null),
            ("profile"@, JsonV::Null),
            ("profiles"@, JsonV::Object(seq![])),
            ("instructions"@, JsonV::Null),
            ("developer_instructions"@, JsonV::Null),
            ("compact_prompt"@, JsonV::Null),
            ("model_reasoning_effort"@, JsonV::Null),
            ("model_reasoning_summary"@, JsonV::Null),
            ("service_tier"@, JsonV::Null),
            ("model_verbosity"@, JsonV::Null),
            ("analytics"@, JsonV::Null),
            ("mcp_servers"@, JsonV::Object(seq![])),
            ("apps"@, JsonV::Object(seq![("_default"@, default_app_v())])),
        ],
    )
}

/// The configuration before any key is set.
pub fn default_mcp_config() -> (r: Json)
    ensures
        r@ == default_config_v(),
{
    let mut app: Vec<(String, Json)> = Vec::new();
    app.push(entry("enabled", Json::Bool(true)));
    app.push(entry("destructive_enabled", Json::Bool(false)));
    app.push(entry("open_world_enabled", Json::Bool(false)));
    app.push(entry("default_tools_approval_mode", Json::Null));
    app.push(entry("default_tools_enabled", Json::Null));
    app.push(entry("tools", Json::Null));
    assert(pairs_view(app@) =~= default_app_v()->Object_0);
    let mut apps: Vec<(String, Json)> = Vec::new();
    apps.push(entry("_default", Json::Object(app)));
    assert(pairs_view(apps@) =~= seq![("_default"@, default_app_v())]);
    let mut c: Vec<(String, Json)> = Vec::new();
    c.push(entry("model", Json::Null));
    c.push(entry("review_model", Json::Null));
    c.push(entry("model_context_window", Json::Null));
    c.push(entry("model_auto_compact_token_limit", Json::Null));
    c.push(entry("model_provider", Json::Null));
    c.push(entry("approval_policy", Json::Null));
    c.push(entry("approvals_reviewer", Json::Null));
    c.push(entry("sandbox_mode", Json::Null));
    c.push(entry("sandbox_workspace_write", Json::Null));
    c.push(entry("forced_chatgpt_workspace_id", Json::Null));
    c.push(entry("forced_login_method", Json::Null));
    c.push(entry("web_search", Json::Null));
    c.push(entry("tools", Json::Null));
    c.push(entry("profile", Json::Null));
    c.push(entry("profiles", empty_object()));
    c.push(entry("instructions", Json::Null));
    c.push(entry("developer_instructions", Json::Null));
    c.push(entry("compact_prompt", Json::Null));
    c.push(entry("model_reasoning_effort", Json::Null));
    c.push(entry("model_reasoning_summary", Json::Null));
    c.push(entry("service_tier", Json::Null));
    c.push(entry("model_verbosity", Json::Null));
    c.push(entry("analytics", Json::Null));
    c.push(entry("mcp_servers", empty_object()));
    c.push(entry("apps", Json::Object(apps)));
    assert(pairs_view(c@) =~= default_config_v()->Object_0);
    Json::Object(c)
}

/// The configuration as it is reported: an `analytics` member that is not an
/// object is dropped, then every `null` member at every depth. A value that
/// is not an object is left as it is.
pub open spec fn normalized_config(c: JsonV) -> JsonV {
    match c {
        JsonV::Object(ps) => pruned(
            JsonV::Object(
                match member(ps, "analytics"@) {
                    Some(a) => if a is Null || !(a is Object) {
                        member_remove(ps, "analytics"@)
                    } else {
                        ps
                    },
                    None => ps,
                },
            ),
        ),
        _ => c,
    }
}

/// Drops an `analytics` member that is not an object, then every `null`
/// member at every depth.
pub fn normalize_mcp_config(config: &mut Json)
    ensures
        final(config)@ == normalized_config(old(config)@),
{
    let mut node = Json::Null;
    std::mem::swap(&mut node, config);
    let mut ps = match node {
        Json::Object(ps) => ps,
        other => {
            *config = other;
            return;
        },
    };
    match find_key(&ps, "analytics") {
        Some(i) => {
            if ps[i].1.is_null() || !ps[i].1.is_object() {
                let ghost before = ps@;
                let _ = ps.remove(i);
                assert(pairs_view(ps@) =~= pairs_view(before).remove(i as int));
            }
        },
        None => {},
    }
    *config = Json::Object(ps);
    prune_json_nulls(config);
}

/// The configuration after the stored keys are applied in order: each key
/// is a dotted path.
pub open spec fn applied_config(base: JsonV, entries: Seq<(Seq<char>, JsonV)>) -> JsonV
    decreases entries.len(),
{
    if entries.len() == 0 {
        base
    } else {
        set_path(
            applied_config(base, entries.drop_last()),
            split_all(entries.last().0, '.'),
            entries.last().1,
        )
    }
}

/// The configuration reported to the frontend: the defaults with every
/// stored key set at its dotted path, normalized.
pub fn build_mcp_config(config_state: &Store) -> (r: Json)
    ensures
        r@ == normalized_config(applied_config(default_config_v(), config_state@)),
{
    let mut config = default_mcp_config();
    let entries = config_state.entries();
    let n = entries.len();
    for i in 0..n
        invariant
            n == entries@.len(),
            pairs_view(entries@) == config_state@,
            config@ == applied_config(default_config_v(), pairs_view(entries@).take(i as int)),
    {
        let v = entries[i].1.copy();
        let ghost ev = pairs_view(entries@);
        assert(ev.take(i + 1).drop_last() == ev.take(i as int));
        assert(ev.take(i + 1).last() == ev[i as int]);
        set_json_path(&mut config, entries[i].0.as_str(), v);
    }
    assert(pairs_view(entries@).take(n as int) == pairs_view(entries@));
    normalize_mcp_config(&mut config);
    config
}

/// The value of an optional member, `null` when missing.
pub open spec fn or_null(v: Option<JsonV>) -> JsonV {
    match v {
        Some(x) => x,
        None => JsonV::Null,
    }
}

/// A copy of the member `key` of `j`, `null` when missing.
pub fn member_or_null(j: &Json, key: &str) -> (r: Json)
    ensures
        r@ == or_null(j@.get(key@)),
{
    match j.get(key) {
        Some(v) => v.copy(),
        None => Json::Null,
    }
}

/// One configuration edit `{"keyPath": k, "value": v}` applied to the
/// stored keys; `None` when `keyPath` is not a string.
pub open spec fn config_write(s: Seq<(Seq<char>, JsonV)>, params: JsonV) -> Option<Seq<(Seq<char>, JsonV)>> {
    match params.get("keyPath"@) {
        Some(JsonV::Str(k)) => Some(member_set(s, k, or_null(params.get("value"@)))),
        _ => None,
    }
}

/// Stores the value of one configuration edit under its key path.
pub fn apply_config_write(config_state: &mut Store, params: &Json) -> (r: Result<(), String>)
    requires
        old(config_state).wf(),
    ensures
        final(config_state).wf(),
        match config_write(old(config_state)@, params@) {
            None => (r matches Err(m) && m@ == "config/value/write is missing keyPath"@)
                && final(config_state)@ == old(config_state)@,
            Some(s) => r is Ok && final(config_state)@ == s,
        },
{
    let key_path = match params.get("keyPath") {
        Some(v) => match v.as_str() {
            Some(k) => k.clone(),
            None => {
                return Err("config/value/write is missing keyPath".to_owned());
            },
        },
        None => {
            return Err("config/value/write is missing keyPath".to_owned());
        },
    };
    let value = member_or_null(params, "value");
    config_state.insert(key_path, value);
    Ok(())
}

/// The edits applied in order, stopping at the first that has no key path:
/// the stored keys afterwards, and whether every edit applied.
pub open spec fn batch_write(s: Seq<(Seq<char>, JsonV)>, edits: Seq<JsonV>) -> (Seq<(Seq<char>, JsonV)>, bool)
    decreases edits.len(),
{
    if edits.len() == 0 {
        (s, true)
    } else {
        let (s1, ok) = batch_write(s, edits.drop_last());
        if !ok {
            (s1, false)
        } else {
            match config_write(s1, edits.last()) {
                Some(s2) => (s2, true),
                None => (s1, false),
            }
        }
    }
}

/// Once an edit fails, the later ones change nothing.
proof fn lemma_batch_stops(s: Seq<(Seq<char>, JsonV)>, edits: Seq<JsonV>, k: int)
    requires
        0 <= k <= edits.len(),
        !batch_write(s, edits.take(k)).1,
    ensures
        batch_write(s, edits) == batch_write(s, edits.take(k)),
    decreases edits.len() - k,
{
    if k < edits.len() {
        assert(edits.take(k + 1).drop_last() == edits.take(k));
        lemma_batch_stops(s, edits, k + 1);
    } else {
        assert(edits.take(k) == edits);
    }
}

/// Applies the `edits` of a batch of configuration edits in order, and
/// stops at the first edit without a key path (the edits before it stay).
pub fn apply_config_batch_write(config_state: &mut Store, params: &Json) -> (r: Result<(), String>)
    requires
        old(config_state).wf(),
    ensures
        final(config_state).wf(),
        match params@.get("edits"@) {
            Some(JsonV::Array(edits)) => {
                let (s, ok) = batch_write(old(config_state)@, edits);
                &&& final(config_state)@ == s
                &&& ok ==> r is Ok
                &&& !ok ==> (r matches Err(m) && m@ == "config/value/write is missing keyPath"@)
            },
            _ => (r matches Err(m) && m@ == "config/batchWrite is missing edits"@)
                && final(config_state)@ == old(config_state)@,
        },
{
    let edits = match params.get("edits") {
        Some(v) => match v.as_array() {
            Some(a) => a,
            None => {
                return Err("config/batchWrite is missing edits".to_owned());
            },
        },
        None => {
            return Err("config/batchWrite is missing edits".to_owned());
        },
    };
    let ghost ev = items_view(edits@);
    let ghost start = config_state@;
    let n = edits.len();
    for i in 0..n
        invariant
            n == edits@.len(),
            ev == items_view(edits@),
            params@.get("edits"@) == Some(JsonV::Array(ev)),
            config_state.wf(),
            start == old(config_state)@,
            batch_write(start, ev.take(i as int)) == (config_state@, true),
    {
        assert(ev.take(i + 1).drop_last() == ev.take(i as int));
        assert(ev.take(i + 1).last() == json_view(edits@[i as int]));
        match apply_config_write(config_state, &edits[i]) {
            Ok(()) => {},
            Err(m) => {
                assert(config_write(config_state@, ev[i as int]) is None);
                assert(batch_write(start, ev.take(i + 1)) == (config_state@, false));
                proof {
                    lemma_batch_stops(start, ev, i + 1);
                }
                return Err(m);
            },
        }
    }
    assert(ev.take(n as int) == ev);
    Ok(())
}

/// The value a global-state key has before it is set.
pub open spec fn default_global_state_v(key: Seq<char>) -> JsonV {
    if key == "native-workspace-roots"@ || key == "projectless-thread-ids"@ || key
        == "remote-projects"@ || key == "project-order"@ || key == "queued-follow-ups"@ {
        JsonV::Array(seq![])
    } else if key == "thread-workspace-root-hints"@ {
        JsonV::Object(seq![])
    } else if key == "use-copilot-auth-if-available"@ || key == "mac-menu-bar-enabled"@ || key
        == "notifications-permissions-enabled"@ || key == "notifications-questions-enabled"@ {
        JsonV::Bool(false)
    } else {
        JsonV::Null
    }
}

/// The value a global-state key has before it is set.
pub fn default_global_state_value(key: &str) -> (r: Json)
    ensures
        r@ == default_global_state_v(key@),
{
    if str_eq(key, "native-workspace-roots") || str_eq(key, "projectless-thread-ids") || str_eq(
        key,
        "remote-projects",
    ) || str_eq(key, "project-order") || str_eq(key, "queued-follow-ups") {
        empty_array()
    } else if str_eq(key, "thread-workspace-root-hints") {
        empty_object()
    } else if str_eq(key, "use-copilot-auth-if-available") || str_eq(key, "mac-menu-bar-enabled")
        || str_eq(key, "notifications-permissions-enabled") || str_eq(
        key,
        "notifications-questions-enabled",
    ) {
        Json::Bool(false)
    } else {
        Json::Null
    }
}

/// The value a configuration key has before it is set.
pub open spec fn default_configuration_v(key: Seq<char>) -> JsonV {
    if key == "browserAgent"@ || key == "preventSleepWhileRunning"@ {
        JsonV::Bool(false)
    } else if key == "appearanceTheme"@ {
        JsonV::Str("system"@)
    } else if key == "sansFontSize"@ {
        JsonV::Number("14"@)
    } else if key == "codeFontSize"@ {
        JsonV::Number("13"@)
    } else if key == "usePointerCursors"@ {
        JsonV::Bool(true)
    } else {
        JsonV::Null
    }
}

/// The value a configuration key has before it is set.
pub fn default_configuration_value(key: &str) -> (r: Json)
    ensures
        r@ == default_configuration_v(key@),
{
    if str_eq(key, "browserAgent") || str_eq(key, "preventSleepWhileRunning") {
        Json::Bool(false)
    } else if str_eq(key, "appearanceTheme") {
        Json::str_of("system")
    } else if str_eq(key, "sansFontSize") {
        Json::number_of("14")
    } else if str_eq(key, "codeFontSize") {
        Json::number_of("13")
    } else if str_eq(key, "usePointerCursors") {
        Json::Bool(true)
    } else {
        Json::Null
    }
}

/// The value stored under `key`; when there is none, `default` is stored
/// under it and given back.
pub fn read_store_value_or_default(store: &mut Store, key: &str, default: Json) -> (r: Json)
    requires
        old(store).wf(),
    ensures
        final(store).wf(),
        match member(old(store)@, key@) {
            Some(v) => r@ == v && final(store)@ == old(store)@,
            None => r@ == default@ && final(store)@ == member_set(old(store)@, key@, default@),
        },
{
    match store.get(key) {
        Some(v) => {
            return v.copy();
        },
        None => {},
    }
    let kept = default.copy();
    store.insert(key.to_owned(), default);
    kept
}

/// An array of the strings `items`.
pub fn string_array(items: &[&str]) -> (r: Json)
    ensures
        r@ == JsonV::Array(items@.map_values(|s: &str| JsonV::Str(s@))),
{
    let mut out: Vec<Json> = Vec::new();
    let n = items.len();
    for i in 0..n
        invariant
            n == items@.len(),
            items_view(out@) == items@.map_values(|s: &str| JsonV::Str(s@)).take(i as int),
    {
        let ghost before = out@;
        out.push(Json::str_of(items[i]));
        assert(items_view(out@) =~= items_view(before).push(JsonV::Str(items@[i as int]@)));
        assert(items@.map_values(|s: &str| JsonV::Str(s@)).take(i + 1) =~= items@.map_values(
            |s: &str| JsonV::Str(s@),
        ).take(i as int).push(JsonV::Str(items@[i as int]@)));
    }
    assert(items@.map_values(|s: &str| JsonV::Str(s@)).take(n as int) =~= items@.map_values(
        |s: &str| JsonV::Str(s@),
    ));
    Json::Array(out)
}

/// One model of the catalog.
pub open spec fn model_v(id: Seq<char>, name: Seq<char>, efforts: Seq<JsonV>) -> JsonV {
    JsonV::Object(
        seq![
            ("id"@, JsonV::Str(id)),
            ("name"@, JsonV::Str(name)),
            ("display_name"@, JsonV::Str(name)),
            ("provider"@, JsonV::Str("openai"@)),
            ("available"@, JsonV::Bool(true)),
            ("deprecated"@, JsonV::Bool(false)),
            ("default_reasoning_effort"@, JsonV::Str("medium"@)),
            ("reasoning_effort_options"@, JsonV::Array(efforts)),
            ("supports_reasoning_effort"@, JsonV::Bool(true)),
            ("supports_reasoning_summary"@, JsonV::Bool(true)),
            ("service_tiers"@, JsonV::Array(seq![JsonV::Str("default"@)])),
        ],
    )
}

/// One model of the catalog.
fn model_entry(id: &str, name: &str, efforts: Json) -> (r: Json)
    requires
        efforts@ is Array,
    ensures
        r@ == model_v(id@, name@, efforts@->Array_0),
{
    let ghost ev = efforts@->Array_0;
    let tiers = string_array(&["default"]);
    assert(tiers@ == JsonV::Array(seq![JsonV::Str("default"@)])) by {
        assert(["default"]@.map_values(|s: &str| JsonV::Str(s@)) =~= seq![JsonV::Str("default"@)]);
    }
    let mut ps: Vec<(String, Json)> = Vec::new();
    ps.push(entry("id", Json::str_of(id)));
    ps.push(entry("name", Json::str_of(name)));
    ps.push(entry("display_name", Json::str_of(name)));
    ps.push(entry("provider", Json::str_of("openai")));
    ps.push(entry("available", Json::Bool(true)));
    ps.push(entry("deprecated", Json::Bool(false)));
    ps.push(entry("default_reasoning_effort", Json::str_of("medium")));
    ps.push(entry("reasoning_effort_options", efforts));
    ps.push(entry("supports_reasoning_effort", Json::Bool(true)));
    ps.push(entry("supports_reasoning_summary", Json::Bool(true)));
    ps.push(entry("service_tiers", tiers));
    assert(pairs_view(ps@) =~= model_v(id@, name@, ev)->Object_0);
    Json::Object(ps)
}

/// The reasoning efforts of a model, as strings.
pub open spec fn efforts_v(names: Seq<Seq<char>>) -> Seq<JsonV> {
    names.map_values(|n: Seq<char>| JsonV::Str(n))
}

/// The models the shell offers.
pub open spec fn model_catalog_v() -> JsonV {
    JsonV::Array(
        seq![
            model_v("gpt-5.4"@, "GPT-5.4"@, efforts_v(seq!["minimal"@, "low"@, "medium"@, "high"@])),
            model_v("gpt-5.3-codex"@, "GPT-5.3-Codex"@, efforts_v(seq!["low"@, "medium"@, "high"@])),
            model_v("gpt-5.4-mini"@, "GPT-5.4-Mini"@, efforts_v(seq!["low"@, "medium"@, "high"@])),
        ],
    )
}

/// The models the shell offers.
pub fn native_model_catalog() -> (r: Json)
    ensures
        r@ == model_catalog_v(),
{
    let four = string_array(&["minimal", "low", "medium", "high"]);
    assert(["minimal", "low", "medium", "high"]@.map_values(|s: &str| JsonV::Str(s@))
        =~= efforts_v(seq!["minimal"@, "low"@, "medium"@, "high"@]));
    let three_a = string_array(&["low", "medium", "high"]);
    let three_b = string_array(&["low", "medium", "high"]);
    assert(["low", "medium", "high"]@.map_values(|s: &str| JsonV::Str(s@)) =~= efforts_v(
        seq!["low"@, "medium"@, "high"@],
    ));
    let a = model_entry("gpt-5.4", "GPT-5.4", four);
    let b = model_entry("gpt-5.3-codex", "GPT-5.3-Codex", three_a);
    let c = model_entry("gpt-5.4-mini", "GPT-5.4-Mini", three_b);
    let mut items: Vec<Json> = Vec::new();
    items.push(a);
    items.push(b);
    items.push(c);
    assert(items_view(items@) =~= model_catalog_v()->Array_0);
    Json::Array(items)
}

/// The models `model/list` offers are exactly `gpt-5.4`, `gpt-5.3-codex`
/// and `gpt-5.4-mini`, in that order, under the names `GPT-5.4`,
/// `GPT-5.3-Codex` and `GPT-5.4-Mini`; no two share an id, so picking a
/// model by its name selects that model's own id.
pub proof fn law_model_catalog_ids()
    ensures
        model_catalog_v() matches JsonV::Array(ms) && ms.len() == 3
            && ms[0].get("id"@) == Some(JsonV::Str("gpt-5.4"@))
            && ms[1].get("id"@) == Some(JsonV::Str("gpt-5.3-codex"@))
            && ms[2].get("id"@) == Some(JsonV::Str("gpt-5.4-mini"@))
            && ms[0].get("name"@) == Some(JsonV::Str("GPT-5.4"@))
            && ms[1].get("name"@) == Some(JsonV::Str("GPT-5.3-Codex"@))
            && ms[2].get("name"@) == Some(JsonV::Str("GPT-5.4-Mini"@))
            && forall|i: int, j: int| 0 <= i < j < 3 ==> #[trigger] ms[i].get("id"@) != #[trigger] ms[j].get("id"@),
{
    reveal_strlit("id");
    reveal_strlit("name");
    reveal_strlit("gpt-5.4");
    reveal_strlit("gpt-5.3-codex");
    reveal_strlit("gpt-5.4-mini");
    assert("id"@ != "name"@) by {
        assert("id"@.len() != "name"@.len());
    }
    let ms = model_catalog_v()->Array_0;
    assert forall|i: int| 0 <= i < 3 implies (#[trigger] ms[i]).get("id"@) == Some(JsonV::Str(ms[i]->Object_0[0].1->Str_0))
        && ms[i].get("name"@) == Some(ms[i]->Object_0[1].1) by {
        reveal_with_fuel(key_index, 3);
    }
    assert("gpt-5.4"@.len() != "gpt-5.3-codex"@.len());
    assert("gpt-5.4"@.len() != "gpt-5.4-mini"@.len());
    assert("gpt-5.3-codex"@.len() != "gpt-5.4-mini"@.len());
}

/// What lies at a path of members survives normalization, pruned: the
/// value must not be `null`, and where the path is `analytics` itself, it
/// must be an object (any other is dropped there).
proof fn lemma_normalized_get_path(c: JsonV, segs: Seq<Seq<char>>, v: JsonV)
    requires
        segs.len() >= 1,
        get_path(c, segs) == Some(v),
        !(v is Null),
        segs[0] != "analytics"@ || segs.len() > 1 || v is Object,
    ensures
        get_path(normalized_config(c), segs) == Some(pruned(v)),
{
    assert(c is Object);
    let ps = c->Object_0;
    let child = c.get(segs[0])->0;
    assert(member(ps, segs[0]) == Some(child));
    let kept = match member(ps, "analytics"@) {
        Some(a) => if a is Null || !(a is Object) {
            member_remove(ps, "analytics"@)
        } else {
            ps
        },
        None => ps,
    };
    assert(normalized_config(c) == pruned(JsonV::Object(kept)));
    if segs[0] != "analytics"@ {
        lemma_member_remove_other(ps, "analytics"@, segs[0]);
    } else {
        assert(child is Object) by {
            if segs.len() == 1 {
                assert(get_path(child, segs.drop_first()) == Some(child));
            } else if !(child is Object) {
                assert(child.get(segs.drop_first()[0]) is None);
            }
        }
    }
    assert(get_path(JsonV::Object(kept), segs) == get_path(c, segs));
    lemma_get_path_pruned(JsonV::Object(kept), segs, v);
}

/// Keys applied after a value was placed at `segs`, each at a path apart
/// from it, leave that value where it is.
proof fn lemma_applied_keeps(base: JsonV, es: Seq<(Seq<char>, JsonV)>, from: int, segs: Seq<Seq<char>>, v: JsonV)
    requires
        0 <= from <= es.len(),
        segs.len() >= 1,
        get_path(applied_config(base, es.take(from)), segs) == Some(v),
        forall|j: int| from <= j < es.len() ==> paths_apart(split_all(#[trigger] es[j].0, '.'), segs),
    ensures
        get_path(applied_config(base, es), segs) == Some(v),
    decreases es.len(),
{
    if es.len() == from {
        assert(es.take(from) == es);
    } else {
        let init = es.drop_last();
        assert(init.take(from) == es.take(from));
        assert forall|j: int| from <= j < init.len() implies paths_apart(split_all(#[trigger] init[j].0, '.'), segs) by {
            assert(init[j] == es[j]);
        }
        lemma_applied_keeps(base, init, from, segs, v);
        assert(paths_apart(split_all(es[es.len() - 1].0, '.'), segs));
        lemma_set_path_apart(applied_config(base, init), split_all(es.last().0, '.'), es.last().1, segs);
    }
}

/// The configuration read after an edit holds the written value at the
/// edit's dotted key path, with its `null` members pruned. It holds for a
/// key not written before and a value that is not `null`; when the path is
/// `analytics` itself, for an object value (any other is dropped there).
pub proof fn law_config_read_after_write(cs: Seq<(Seq<char>, JsonV)>, key: Seq<char>, value: JsonV)
    requires
        member(cs, key) is None,
        !(value is Null),
        split_all(key, '.')[0] != "analytics"@ || split_all(key, '.').len() > 1 || value is Object,
    ensures
        get_path(
            normalized_config(applied_config(default_config_v(), member_set(cs, key, value))),
            split_all(key, '.'),
        ) == Some(pruned(value)),
{
    let segs = split_all(key, '.');
    lemma_key_index(cs, key);
    let cs2 = member_set(cs, key, value);
    assert(cs2 == cs.push((key, value)));
    assert(cs2.drop_last() == cs);
    let before = applied_config(default_config_v(), cs);
    let c = applied_config(default_config_v(), cs2);
    assert(c == set_path(before, segs, value));
    law_set_then_get_path(before, segs, value);
    lemma_normalized_get_path(c, segs, value);
}

/// The same for a key that may already be stored: an edit of a stored key
/// is read back too, where the stored keys are unique and every other
/// stored key's dotted path parts from the edited one (neither begins the
/// other), so no later key writes over it.
pub proof fn law_config_read_after_overwrite(cs: Seq<(Seq<char>, JsonV)>, key: Seq<char>, value: JsonV)
    requires
        unique_keys(cs),
        !(value is Null),
        split_all(key, '.')[0] != "analytics"@ || split_all(key, '.').len() > 1 || value is Object,
        forall|j: int|
            0 <= j < cs.len() && cs[j].0 != key ==> paths_apart(split_all(#[trigger] cs[j].0, '.'), split_all(key, '.')),
    ensures
        get_path(
            normalized_config(applied_config(default_config_v(), member_set(cs, key, value))),
            split_all(key, '.'),
        ) == Some(pruned(value)),
{
    let segs = split_all(key, '.');
    lemma_key_index(cs, key);
    let i = key_index(cs, key);
    if i < 0 {
        law_config_read_after_write(cs, key, value);
    } else {
        let base = default_config_v();
        let cs2 = member_set(cs, key, value);
        assert(cs2 == cs.update(i, (key, value)));
        assert(cs2.take(i + 1).drop_last() =~= cs.take(i));
        assert(cs2.take(i) =~= cs.take(i));
        assert(cs2.take(i + 1).last() == (key, value));
        let before = applied_config(base, cs.take(i));
        assert(applied_config(base, cs2.take(i + 1)) == set_path(before, segs, value));
        law_set_then_get_path(before, segs, value);
        assert forall|j: int| i + 1 <= j < cs2.len() implies paths_apart(split_all(#[trigger] cs2[j].0, '.'), segs) by {
            assert(cs2[j] == cs[j]);
            assert(cs[i].0 != cs[j].0);
        }
        lemma_applied_keeps(base, cs2, i + 1, segs, value);
        lemma_normalized_get_path(applied_config(base, cs2), segs, value);
    }
}

} // verus!
