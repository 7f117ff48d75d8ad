use codex_native::config::{
    apply_config_batch_write, apply_config_write, build_mcp_config, default_configuration_value,
    default_global_state_value, default_mcp_config, member_or_null, native_model_catalog, normalize_mcp_config,
    read_store_value_or_default, string_array,
};
use codex_native::json::{find_key, prune_json_nulls, remove_member, set_json_path, set_member, Json};
use codex_native::store::Store;

fn s(x: &str) -> Json {
    Json::Str(x.to_string())
}

fn obj(pairs: Vec<(&str, Json)>) -> Json {
    Json::Object(pairs.into_iter().map(|(k, v)| (k.to_string(), v)).collect())
}

fn arr(items: Vec<Json>) -> Json {
    Json::Array(items)
}

#[test]
fn set_json_path_creates_nested_objects() {
    let mut root = obj(vec![("a", Json::Number("1".to_string()))]);
    set_json_path(&mut root, "a.b.c", s("x"));
    assert_eq!(root, obj(vec![("a", obj(vec![("b", obj(vec![("c", s("x"))]))]))]));
}

#[test]
fn set_json_path_replaces_a_member_in_place() {
    let mut root = obj(vec![("a", Json::Null), ("b", Json::Bool(true))]);
    set_json_path(&mut root, "a", s("v"));
    assert_eq!(root, obj(vec![("a", s("v")), ("b", Json::Bool(true))]));
}

#[test]
fn set_json_path_on_a_non_object_root() {
    let mut root = Json::Number("3".to_string());
    set_json_path(&mut root, "k", Json::Null);
    assert_eq!(root, obj(vec![("k", Json::Null)]));
}

#[test]
fn set_then_get_path_reads_back() {
    let mut root = obj(vec![("x", obj(vec![("y", Json::Bool(false))]))]);
    set_json_path(&mut root, "x.y", Json::Bool(true));
    assert_eq!(root.get("x").unwrap().get("y"), Some(&Json::Bool(true)));
}

#[test]
fn prune_json_nulls_drops_null_members_at_every_depth() {
    let mut v = obj(vec![
        ("a", Json::Null),
        ("b", obj(vec![("c", Json::Null), ("d", Json::Bool(true))])),
        ("e", arr(vec![Json::Null, obj(vec![("f", Json::Null)])])),
    ]);
    prune_json_nulls(&mut v);
    assert_eq!(v, obj(vec![("b", obj(vec![("d", Json::Bool(true))])), ("e", arr(vec![Json::Null, obj(vec![])]))]));
}

#[test]
fn members_set_find_and_remove() {
    let mut ps: Vec<(String, Json)> = Vec::new();
    set_member(&mut ps, "a".to_string(), Json::Bool(true));
    set_member(&mut ps, "b".to_string(), Json::Null);
    set_member(&mut ps, "a".to_string(), Json::Bool(false));
    assert_eq!(ps, vec![("a".to_string(), Json::Bool(false)), ("b".to_string(), Json::Null)]);
    assert_eq!(find_key(&ps, "b"), Some(1));
    remove_member(&mut ps, "a");
    assert_eq!(find_key(&ps, "a"), None);
    assert_eq!(ps.len(), 1);
}

#[test]
fn json_accessors() {
    let v = obj(vec![("s", s("t")), ("b", Json::Bool(true)), ("l", arr(vec![Json::Null]))]);
    assert_eq!(v.get("s").unwrap().as_str(), Some(&"t".to_string()));
    assert_eq!(v.get("b").unwrap().as_bool(), Some(true));
    assert_eq!(v.get("l").unwrap().as_array().map(|a| a.len()), Some(1));
    assert_eq!(v.get("missing"), None);
    assert!(v.is_object());
    assert!(Json::Null.is_null());
    assert_eq!(s("x").get("s"), None);
    assert_eq!(v.copy(), v);
    assert_eq!(member_or_null(&v, "nope"), Json::Null);
    assert_eq!(member_or_null(&v, "s"), s("t"));
}

#[test]
fn store_reads_back_what_was_written() {
    let mut st = Store::new();
    st.insert("k".to_string(), s("one"));
    st.insert("other".to_string(), Json::Bool(true));
    st.insert("k".to_string(), s("two"));
    assert_eq!(st.get("k"), Some(&s("two")));
    assert_eq!(st.get("other"), Some(&Json::Bool(true)));
    assert_eq!(st.to_object(), obj(vec![("k", s("two")), ("other", Json::Bool(true))]));
    st.remove("k");
    assert_eq!(st.get("k"), None);
    assert_eq!(st.get("other"), Some(&Json::Bool(true)));
    st.clear();
    assert_eq!(st.entries().len(), 0);
}

#[test]
fn read_store_value_or_default_stores_the_default() {
    let mut st = Store::new();
    let v = read_store_value_or_default(&mut st, "sansFontSize", default_configuration_value("sansFontSize"));
    assert_eq!(v, Json::Number("14".to_string()));
    assert_eq!(st.get("sansFontSize"), Some(&Json::Number("14".to_string())));
    st.insert("sansFontSize".to_string(), Json::Number("16".to_string()));
    let again = read_store_value_or_default(&mut st, "sansFontSize", Json::Null);
    assert_eq!(again, Json::Number("16".to_string()));
}

#[test]
fn default_values() {
    assert_eq!(default_global_state_value("native-workspace-roots"), arr(vec![]));
    assert_eq!(default_global_state_value("thread-workspace-root-hints"), obj(vec![]));
    assert_eq!(default_global_state_value("mac-menu-bar-enabled"), Json::Bool(false));
    assert_eq!(default_global_state_value("selected-remote-host-id"), Json::Null);
    assert_eq!(default_configuration_value("appearanceTheme"), s("system"));
    assert_eq!(default_configuration_value("codeFontSize"), Json::Number("13".to_string()));
    assert_eq!(default_configuration_value("usePointerCursors"), Json::Bool(true));
    assert_eq!(default_configuration_value("browserAgent"), Json::Bool(false));
    assert_eq!(default_configuration_value("unknown"), Json::Null);
}

fn default_app(enabled: bool) -> Json {
    obj(vec![
        ("enabled", Json::Bool(enabled)),
        ("destructive_enabled", Json::Bool(false)),
        ("open_world_enabled", Json::Bool(false)),
    ])
}

#[test]
fn build_mcp_config_of_an_empty_store() {
    let cfg = build_mcp_config(&Store::new());
    assert_eq!(
        cfg,
        obj(vec![
            ("profiles", obj(vec![])),
            ("mcp_servers", obj(vec![])),
            ("apps", obj(vec![("_default", default_app(true))])),
        ])
    );
    assert_eq!(default_mcp_config().get("model"), Some(&Json::Null));
}

#[test]
fn build_mcp_config_applies_dotted_keys() {
    let mut st = Store::new();
    st.insert("model".to_string(), s("gpt-5.4"));
    st.insert("apps._default.enabled".to_string(), Json::Bool(false));
    st.insert("analytics.enabled".to_string(), Json::Bool(true));
    let cfg = build_mcp_config(&st);
    assert_eq!(
        cfg,
        obj(vec![
            ("model", s("gpt-5.4")),
            ("profiles", obj(vec![])),
            ("analytics", obj(vec![("enabled", Json::Bool(true))])),
            ("mcp_servers", obj(vec![])),
            ("apps", obj(vec![("_default", default_app(false))])),
        ])
    );
}

#[test]
fn normalize_drops_analytics_that_is_not_an_object() {
    let mut c = obj(vec![("analytics", s("on")), ("x", Json::Null), ("y", Json::Bool(true))]);
    normalize_mcp_config(&mut c);
    assert_eq!(c, obj(vec![("y", Json::Bool(true))]));
    let mut other = arr(vec![Json::Null]);
    normalize_mcp_config(&mut other);
    assert_eq!(other, arr(vec![Json::Null]));
}

#[test]
fn config_write_and_its_error() {
    let mut st = Store::new();
    let ok = apply_config_write(&mut st, &obj(vec![("keyPath", s("model")), ("value", s("m"))]));
    assert_eq!(ok, Ok(()));
    assert_eq!(st.get("model"), Some(&s("m")));
    let missing_value = apply_config_write(&mut st, &obj(vec![("keyPath", s("tools"))]));
    assert_eq!(missing_value, Ok(()));
    assert_eq!(st.get("tools"), Some(&Json::Null));
    let bad = apply_config_write(&mut st, &obj(vec![("value", s("m"))]));
    assert_eq!(bad, Err("config/value/write is missing keyPath".to_string()));
}

#[test]
fn batch_write_stops_at_the_first_bad_edit() {
    let mut st = Store::new();
    let edits = arr(vec![
        obj(vec![("keyPath", s("a")), ("value", Json::Bool(true))]),
        obj(vec![("value", Json::Bool(true))]),
        obj(vec![("keyPath", s("c")), ("value", Json::Bool(true))]),
    ]);
    let r = apply_config_batch_write(&mut st, &obj(vec![("edits", edits)]));
    assert_eq!(r, Err("config/value/write is missing keyPath".to_string()));
    assert_eq!(st.get("a"), Some(&Json::Bool(true)));
    assert_eq!(st.get("c"), None);
    let missing = apply_config_batch_write(&mut st, &obj(vec![("edits", s("no"))]));
    assert_eq!(missing, Err("config/batchWrite is missing edits".to_string()));
}

#[test]
fn model_catalog_lists_three_models() {
    let cat = native_model_catalog();
    let items = cat.as_array().unwrap();
    assert_eq!(items.len(), 3);
    assert_eq!(items[0].get("id"), Some(&s("gpt-5.4")));
    assert_eq!(items[1].get("display_name"), Some(&s("GPT-5.3-Codex")));
    assert_eq!(
        items[0].get("reasoning_effort_options"),
        Some(&string_array(&["minimal", "low", "medium", "high"]))
    );
    assert_eq!(items[2].get("service_tiers"), Some(&arr(vec![s("default")])));
}

#[test]
fn config_read_after_overwriting_a_stored_key() {
    let mut st = Store::new();
    st.insert("model".to_string(), s("gpt-5.4"));
    st.insert("apps._default.enabled".to_string(), Json::Bool(false));
    let ok = apply_config_write(&mut st, &obj(vec![("keyPath", s("model")), ("value", s("gpt-5.4-mini"))]));
    assert_eq!(ok, Ok(()));
    let cfg = build_mcp_config(&st);
    assert_eq!(cfg.get("model"), Some(&s("gpt-5.4-mini")));
    let again = apply_config_write(
        &mut st,
        &obj(vec![("keyPath", s("apps._default.enabled")), ("value", Json::Bool(true))]),
    );
    assert_eq!(again, Ok(()));
    let cfg = build_mcp_config(&st);
    assert_eq!(cfg.get("apps").and_then(|a| a.get("_default")), Some(&default_app(true)));
}
