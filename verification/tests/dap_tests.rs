use cortex_debug_zed::dap::{
    dap_request_kind, get_dap_binary, parse_config, StartDebuggingRequestArgumentsRequest,
};
use cortex_debug_zed::json::{Json, JsonNumber};
use cortex_debug_zed::scenario::{
    dap_config_to_scenario, AttachRequest, DebugConfig, DebugRequest, LaunchRequest,
};

fn text(s: &str) -> Json {
    Json::Str(s.to_string())
}

fn obj(entries: Vec<(&str, Json)>) -> Json {
    Json::Object(entries.into_iter().map(|(k, v)| (k.to_string(), v)).collect())
}

/// Reads back a printed configuration.
fn read(text: &str) -> Json {
    parse_config("cortex-debug-zed", text).unwrap()
}

fn jlink_config(request: Option<&str>) -> Json {
    let mut entries = vec![
        ("servertype", text("jlink")),
        ("device", text("STM32H573VI")),
        ("executable", text("$ZED_WORKTREE_ROOT/build/firmware.elf")),
    ];
    if let Some(r) = request {
        entries.push(("request", text(r)));
    }
    obj(entries)
}

#[test]
fn request_kind_defaults_to_launch() {
    assert_eq!(
        dap_request_kind("cortex-debug-zed", &jlink_config(None)),
        Ok(StartDebuggingRequestArgumentsRequest::Launch)
    );
}

#[test]
fn request_kind_launch_and_attach() {
    assert_eq!(
        dap_request_kind("cortex-debug-zed", &jlink_config(Some("launch"))),
        Ok(StartDebuggingRequestArgumentsRequest::Launch)
    );
    assert_eq!(
        dap_request_kind("cortex-debug-zed", &jlink_config(Some("attach"))),
        Ok(StartDebuggingRequestArgumentsRequest::Attach)
    );
}

#[test]
fn request_kind_of_other_value_is_an_error() {
    assert_eq!(
        dap_request_kind("cortex-debug-zed", &jlink_config(Some("flash"))),
        Err("Invalid value for 'request': 'flash'. Expected \"launch\" or \"attach\"".to_string())
    );
}

#[test]
fn request_kind_ignores_non_string_request() {
    let config = obj(vec![("request", Json::Bool(true))]);
    assert_eq!(
        dap_request_kind("cortex-debug-zed", &config),
        Ok(StartDebuggingRequestArgumentsRequest::Launch)
    );
    assert_eq!(
        dap_request_kind("cortex-debug-zed", &Json::Null),
        Ok(StartDebuggingRequestArgumentsRequest::Launch)
    );
}

#[test]
fn request_kind_checks_adapter_first() {
    assert_eq!(
        dap_request_kind("gdb", &jlink_config(Some("flash"))),
        Err("Unsupported debug adapter name 'gdb', expected 'cortex-debug-zed'".to_string())
    );
}

#[test]
fn binary_runs_bundled_adapter_with_node() {
    let binary = get_dap_binary(
        "cortex-debug-zed",
        jlink_config(None),
        None,
        "C:\\zed\\work",
        "C:\\zed\\work\\dist/debugadapter.js".to_string(),
    )
    .unwrap();
    assert_eq!(binary.command, Some("node".to_string()));
    assert_eq!(binary.arguments, vec!["C:\\zed\\work\\dist/debugadapter.js".to_string()]);
    assert!(binary.envs.is_empty());
    assert_eq!(binary.cwd, None);
    assert!(binary.connection.is_none());
    assert_eq!(binary.request_args.request, StartDebuggingRequestArgumentsRequest::Launch);
    let config = &read(&binary.request_args.configuration);
    assert_eq!(config.get("extensionPath"), Some(&text("C:/zed/work")));
    assert_eq!(config.get("servertype"), Some(&text("jlink")));
    assert_eq!(config.get("preResetCommands"), Some(&Json::Array(vec![])));
}

#[test]
fn binary_prefers_user_adapter_script() {
    let binary = get_dap_binary(
        "cortex-debug-zed",
        jlink_config(Some("attach")),
        Some("/opt/cortex-debug/dist/debugadapter.js".to_string()),
        "/home/dev/zed/work",
        "/home/dev/zed/work/dist/debugadapter.js".to_string(),
    )
    .unwrap();
    assert_eq!(binary.arguments, vec!["/opt/cortex-debug/dist/debugadapter.js".to_string()]);
    assert_eq!(binary.request_args.request, StartDebuggingRequestArgumentsRequest::Attach);
    assert_eq!(
        read(&binary.request_args.configuration).get("extensionPath"),
        Some(&text("/home/dev/zed/work"))
    );
}

#[test]
fn binary_overrides_user_extension_path() {
    let config = obj(vec![("extensionPath", text("/elsewhere")), ("request", text("launch"))]);
    let binary = get_dap_binary("cortex-debug-zed", config, None, "/work", "/work/dist/debugadapter.js".to_string())
        .unwrap();
    let config = &read(&binary.request_args.configuration);
    assert_eq!(config.get("extensionPath"), Some(&text("/work")));
    match config {
        Json::Object(entries) => assert_eq!(entries.len(), 2 + 11),
        _ => panic!("the configuration should stay an object"),
    }
}

#[test]
fn binary_for_non_object_config_passes_it_on() {
    let binary = get_dap_binary("cortex-debug-zed", Json::Null, None, "/work", "/work/dist/debugadapter.js".to_string())
        .unwrap();
    assert_eq!(binary.request_args.configuration, "null");
    assert_eq!(binary.request_args.request, StartDebuggingRequestArgumentsRequest::Launch);
}

#[test]
fn binary_for_other_adapter_is_refused() {
    let r = get_dap_binary("lldb", jlink_config(None), None, "/work", "/work/dist/debugadapter.js".to_string());
    assert_eq!(
        r.err(),
        Some("Unsupported debug adapter name 'lldb', expected 'cortex-debug-zed'".to_string())
    );
}

#[test]
fn binary_attach_only_for_exact_attach_string() {
    let binary = get_dap_binary(
        "cortex-debug-zed",
        jlink_config(Some("Attach")),
        None,
        "/work",
        "/work/dist/debugadapter.js".to_string(),
    )
    .unwrap();
    assert_eq!(binary.request_args.request, StartDebuggingRequestArgumentsRequest::Launch);
}

fn launch_config(args: Vec<String>, envs: Vec<(String, String)>) -> DebugConfig {
    DebugConfig {
        label: "Debug firmware".to_string(),
        adapter: "cortex-debug-zed".to_string(),
        request: DebugRequest::Launch(LaunchRequest {
            program: "/proj/build/firmware.elf".to_string(),
            cwd: Some("/proj".to_string()),
            args,
            envs,
        }),
        stop_on_entry: Some(true),
    }
}

#[test]
fn scenario_for_plain_launch() {
    let scenario = dap_config_to_scenario(launch_config(vec![], vec![])).unwrap();
    assert_eq!(scenario.label, "Debug firmware");
    assert_eq!(scenario.adapter, "cortex-debug-zed");
    assert!(scenario.build.is_none());
    assert!(scenario.tcp_connection.is_none());
    assert_eq!(
        scenario.config,
        "{\"coreConfigs\":[{\"programBinary\":\"/proj/build/firmware.elf\"}],\"cwd\":\"/proj\",\"flashingConfig\":{\"flashingEnabled\":true,\"haltAfterReset\":true},\"request\":\"launch\"}"
    );
    assert_eq!(
        dap_request_kind(&scenario.adapter, &read(&scenario.config)),
        Ok(StartDebuggingRequestArgumentsRequest::Launch)
    );
}

#[test]
fn scenario_without_cwd_or_stop_on_entry_uses_null() {
    let mut config = launch_config(vec![], vec![]);
    config.stop_on_entry = None;
    if let DebugRequest::Launch(l) = &mut config.request {
        l.cwd = None;
    }
    let scenario = dap_config_to_scenario(config).unwrap();
    let scenario_config = read(&scenario.config);
    assert_eq!(scenario_config.get("cwd"), Some(&Json::Null));
    let flashing = scenario_config.get("flashingConfig").unwrap();
    assert_eq!(flashing.get("haltAfterReset"), Some(&Json::Null));
}

#[test]
fn scenario_refuses_arguments() {
    assert_eq!(
        dap_config_to_scenario(launch_config(vec!["--fast".to_string()], vec![])).err(),
        Some("Passing arguments is not supported by this debug adapter".to_string())
    );
}

#[test]
fn scenario_refuses_environment() {
    assert_eq!(
        dap_config_to_scenario(launch_config(vec![], vec![("A".to_string(), "1".to_string())])).err(),
        Some("Setting environment variables is not supported by this debug adapter".to_string())
    );
}

#[test]
fn scenario_refuses_arguments_before_environment() {
    assert_eq!(
        dap_config_to_scenario(launch_config(
            vec!["x".to_string()],
            vec![("A".to_string(), "1".to_string())]
        ))
        .err(),
        Some("Passing arguments is not supported by this debug adapter".to_string())
    );
}

#[test]
fn scenario_refuses_attach() {
    let config = DebugConfig {
        label: "Attach".to_string(),
        adapter: "cortex-debug-zed".to_string(),
        request: DebugRequest::Attach(AttachRequest { process_id: Some(42) }),
        stop_on_entry: None,
    };
    assert_eq!(
        dap_config_to_scenario(config).err(),
        Some("Attaching to a process is not supported by this debug adapter".to_string())
    );
}

#[test]
fn scenario_refuses_other_adapter_first() {
    let mut config = launch_config(vec!["x".to_string()], vec![]);
    config.adapter = "probe-rs".to_string();
    assert_eq!(
        dap_config_to_scenario(config).err(),
        Some("Unsupported debug adapter name 'probe-rs', expected 'cortex-debug-zed'".to_string())
    );
}

#[test]
fn scenario_then_binary_keeps_scenario_fields() {
    let scenario = dap_config_to_scenario(launch_config(vec![], vec![])).unwrap();
    let expected_cores = read(&scenario.config).get("coreConfigs").map(|c| format!("{:?}", c));
    let binary = get_dap_binary(
        &scenario.adapter,
        parse_config(&scenario.adapter, &scenario.config).unwrap(),
        None,
        "/work",
        "/work/dist/debugadapter.js".to_string(),
    )
    .unwrap();
    let config = &read(&binary.request_args.configuration);
    assert_eq!(config.get("coreConfigs").map(|c| format!("{:?}", c)), expected_cores);
    assert_eq!(config.get("request"), Some(&text("launch")));
    assert_eq!(config.get("rttConfig").and_then(|r| r.get("enabled")), Some(&Json::Bool(false)));
    assert_eq!(binary.request_args.request, StartDebuggingRequestArgumentsRequest::Launch);
}

#[test]
fn parse_config_reads_json_text() {
    let config = parse_config("cortex-debug-zed", "{\"request\": \"attach\", \"servertype\": \"openocd\"}").unwrap();
    assert_eq!(config.get("request"), Some(&text("attach")));
    assert_eq!(config.get("servertype"), Some(&text("openocd")));
}

#[test]
fn parse_config_keeps_one_entry_per_key() {
    let config = parse_config("cortex-debug-zed", "{\"a\": 1, \"a\": 2}").unwrap();
    assert_eq!(config, obj(vec![("a", Json::Number(JsonNumber::from_u64(2)))]));
}

#[test]
fn parse_config_refuses_bad_text() {
    let err = parse_config("cortex-debug-zed", "{\"request\": ").unwrap_err();
    assert!(err.starts_with("Failed to parse JSON config: "), "{err}");
    assert!(err.contains("line 1"), "{err}");
    assert_eq!(
        parse_config("cortex-debug-zed", "").unwrap_err(),
        "Failed to parse JSON config: EOF while parsing a value at line 1 column 0"
    );
}

#[test]
fn parse_config_checks_adapter_before_text() {
    assert_eq!(
        parse_config("gdb", "not json").unwrap_err(),
        "Unsupported debug adapter name 'gdb', expected 'cortex-debug-zed'"
    );
}

#[test]
fn binary_prints_complete_configuration() {
    let config = parse_config("cortex-debug-zed", "{}").unwrap();
    let binary = get_dap_binary("cortex-debug-zed", config, None, "/w", "/w/dist/debugadapter.js".to_string()).unwrap();
    assert_eq!(
        binary.request_args.configuration,
        [
            "{\"debuggerArgs\":[],\"extensionPath\":\"/w\",\"graphConfig\":[],",
            "\"overridePreEndSessionCommands\":null,\"postAttachCommands\":[],",
            "\"postLaunchCommands\":[],\"postResetCommands\":[],\"preAttachCommands\":[],",
            "\"preLaunchCommands\":[],\"preResetCommands\":[],",
            "\"rttConfig\":{\"decoders\":[],\"enabled\":false},",
            "\"swoConfig\":{\"cpuFrequency\":0,\"decoders\":[],\"enabled\":false,",
            "\"source\":\"probe\",\"swoFrequency\":0}}",
        ]
        .concat()
    );
}

#[test]
fn binary_prints_user_numbers_back() {
    let config = parse_config(
        "cortex-debug-zed",
        "{\"swoConfig\": {\"cpuFrequency\": 8000000, \"scale\": 1.50}, \"rttConfig\": {\"enabled\": true}}",
    )
    .unwrap();
    let binary = get_dap_binary("cortex-debug-zed", config, None, "/w", "/w/a.js".to_string()).unwrap();
    let printed = &binary.request_args.configuration;
    assert!(printed.contains("\"swoConfig\":{\"cpuFrequency\":8000000,\"scale\":1.5}"), "{printed}");
    assert!(printed.contains("\"rttConfig\":{\"enabled\":true}"), "{printed}");
}

#[test]
fn completing_a_printed_configuration_again_changes_nothing() {
    let first_config = parse_config(
        "cortex-debug-zed",
        "{\"servertype\": \"openocd\", \"request\": \"attach\", \"swoConfig\": {\"cpuFrequency\": 72000000}}",
    )
    .unwrap();
    let first = get_dap_binary("cortex-debug-zed", first_config, None, "C:\\w", "a.js".to_string()).unwrap();
    let again = parse_config("cortex-debug-zed", &first.request_args.configuration).unwrap();
    let second = get_dap_binary("cortex-debug-zed", again, None, "C:\\w", "a.js".to_string()).unwrap();
    assert_eq!(second.request_args.configuration, first.request_args.configuration);
    assert_eq!(second.request_args.request, first.request_args.request);
    assert_eq!(second.arguments, first.arguments);
}

#[test]
fn json_number_text_is_decimal() {
    assert_eq!(JsonNumber::from_u64(0), JsonNumber::from_u64(0));
    let config = parse_config("cortex-debug-zed", "{\"n\": 1234567}").unwrap();
    assert_eq!(config.get("n"), Some(&Json::Number(JsonNumber::from_u64(1234567))));
}
