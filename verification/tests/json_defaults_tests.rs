use cortex_debug_zed::defaults::{inject_defaults, DEFAULT_FIELD_COUNT};
use cortex_debug_zed::json::{Json, JsonNumber};

fn text(s: &str) -> Json {
    Json::Str(s.to_string())
}

fn obj(entries: Vec<(&str, Json)>) -> Json {
    Json::Object(entries.into_iter().map(|(k, v)| (k.to_string(), v)).collect())
}

fn arr(items: Vec<Json>) -> Json {
    Json::Array(items)
}

fn disabled_trace() -> Vec<(&'static str, Json)> {
    vec![("enabled", Json::Bool(false)), ("decoders", arr(vec![]))]
}

fn all_defaults() -> Vec<(&'static str, Json)> {
    let mut swo = disabled_trace();
    swo.push(("cpuFrequency", Json::Number(JsonNumber::from_u64(0))));
    swo.push(("swoFrequency", Json::Number(JsonNumber::from_u64(0))));
    swo.push(("source", text("probe")));
    vec![
        ("rttConfig", obj(disabled_trace())),
        ("swoConfig", obj(swo)),
        ("graphConfig", arr(vec![])),
        ("debuggerArgs", arr(vec![])),
        ("preLaunchCommands", arr(vec![])),
        ("postLaunchCommands", arr(vec![])),
        ("preAttachCommands", arr(vec![])),
        ("postAttachCommands", arr(vec![])),
        ("preResetCommands", arr(vec![])),
        ("postResetCommands", arr(vec![])),
        ("overridePreEndSessionCommands", Json::Null),
    ]
}

#[test]
fn json_get_finds_first_entry_with_key() {
    let config = obj(vec![("a", text("1")), ("b", text("2")), ("a", text("3"))]);
    assert_eq!(config.get("a"), Some(&text("1")));
    assert_eq!(config.get("b"), Some(&text("2")));
    assert_eq!(config.get("c"), None);
    assert_eq!(text("x").get("a"), None);
    assert_eq!(Json::Null.get("a"), None);
}

#[test]
fn json_as_str_only_for_strings() {
    assert_eq!(text("attach").as_str(), Some("attach"));
    assert_eq!(Json::Bool(true).as_str(), None);
    assert_eq!(Json::Number(JsonNumber::from_u64(1)).as_str(), None);
}

#[test]
fn json_or_insert_adds_only_missing_fields() {
    let config = obj(vec![("a", text("1"))]);
    let config = config.or_insert("a".to_string(), text("other"));
    assert_eq!(config, obj(vec![("a", text("1"))]));
    let config = config.or_insert("b".to_string(), Json::Null);
    assert_eq!(config, obj(vec![("a", text("1")), ("b", Json::Null)]));
    assert_eq!(arr(vec![]).or_insert("a".to_string(), Json::Null), arr(vec![]));
}

#[test]
fn json_set_replaces_or_adds() {
    let config = obj(vec![("a", text("1")), ("b", text("2"))]);
    let config = config.set("a".to_string(), text("new"));
    assert_eq!(config, obj(vec![("a", text("new")), ("b", text("2"))]));
    let config = config.set("c".to_string(), Json::Bool(true));
    assert_eq!(config, obj(vec![("a", text("new")), ("b", text("2")), ("c", Json::Bool(true))]));
    assert_eq!(Json::Null.set("a".to_string(), Json::Null), Json::Null);
}

#[test]
fn empty_config_gets_every_default() {
    assert_eq!(DEFAULT_FIELD_COUNT, 11);
    let filled = inject_defaults(obj(vec![]));
    assert_eq!(filled, obj(all_defaults()));
}

#[test]
fn user_fields_are_kept_and_come_first() {
    let user = obj(vec![
        ("servertype", text("jlink")),
        ("rttConfig", obj(vec![("enabled", Json::Bool(true))])),
        ("debuggerArgs", arr(vec![text("-q")])),
    ]);
    let filled = inject_defaults(user);
    assert_eq!(filled.get("servertype"), Some(&text("jlink")));
    assert_eq!(filled.get("rttConfig"), Some(&obj(vec![("enabled", Json::Bool(true))])));
    assert_eq!(filled.get("debuggerArgs"), Some(&arr(vec![text("-q")])));
    assert_eq!(filled.get("graphConfig"), Some(&arr(vec![])));
    assert_eq!(filled.get("overridePreEndSessionCommands"), Some(&Json::Null));
    match &filled {
        Json::Object(entries) => {
            assert_eq!(entries.len(), 3 + 9);
            assert_eq!(entries[0].0, "servertype");
            assert_eq!(entries[3].0, "swoConfig");
        }
        _ => panic!("the configuration should stay an object"),
    }
}

#[test]
fn swo_default_is_disabled_probe_source() {
    let filled = inject_defaults(obj(vec![]));
    let swo = filled.get("swoConfig").unwrap();
    assert_eq!(swo.get("enabled"), Some(&Json::Bool(false)));
    assert_eq!(swo.get("decoders"), Some(&arr(vec![])));
    assert_eq!(swo.get("cpuFrequency"), Some(&Json::Number(JsonNumber::from_u64(0))));
    assert_eq!(swo.get("swoFrequency"), Some(&Json::Number(JsonNumber::from_u64(0))));
    assert_eq!(swo.get("source"), Some(&text("probe")));
}

#[test]
fn non_object_config_is_left_alone() {
    assert_eq!(inject_defaults(Json::Null), Json::Null);
    assert_eq!(inject_defaults(arr(vec![text("a")])), arr(vec![text("a")]));
    assert_eq!(inject_defaults(text("launch")), text("launch"));
}

#[test]
fn injecting_twice_is_injecting_once() {
    let user = obj(vec![("request", text("attach")), ("preLaunchCommands", arr(vec![text("monitor reset")]))]);
    let once = inject_defaults(user);
    let once_again = inject_defaults(obj(vec![
        ("request", text("attach")),
        ("preLaunchCommands", arr(vec![text("monitor reset")])),
    ]));
    let twice = inject_defaults(once);
    assert_eq!(twice, once_again);
}
