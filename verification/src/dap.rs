use vstd::prelude::*;

use crate::adapter::{adapter_check, unsupported_adapter_message, verify_adapter_name, ADAPTER_NAME};
use crate::defaults::{
    default_fields, default_value, inject_defaults, law_defaults_fill_only_missing,
    law_defaults_keep_keys_distinct, law_defaults_leave_non_objects, with_defaults,
};
use crate::defaults::{law_defaults_all_present, law_defaults_keep_integral_and_shallow, lemma_or_insert_all_present};
use crate::json::{
    json_depth_at_most, json_equiv, json_integral, json_parse_error, json_text_value,
    json_well_formed, lemma_equiv_get, lemma_equiv_str, lemma_key_index, lemma_set_get,
    lemma_set_same, lemma_set_well_formed, lemma_update_depth, lemma_update_integral,
    max_read_depth, parse_json_text, print_json, printed_json, reads_back, Json, JsonView,
};
use crate::text::{same_text, to_forward_slashes, with_forward_slashes};

verus! {

/// Whether a debug session starts a program or attaches to one.
#[derive(Clone, Copy, Debug, PartialEq, Eq, Structural)]
pub enum StartDebuggingRequestArgumentsRequest {
    Launch,
    Attach,
}

/// TCP transport of a debug adapter; a binary without it speaks over stdio.
#[derive(Debug, PartialEq)]
pub struct TcpArguments {
    pub port: u16,
    pub host: u32,
    pub timeout: Option<u64>,
}

/// What the debug session is started with: the adapter's configuration, as
/// JSON text, and the kind of request.
#[derive(Debug, PartialEq)]
pub struct StartDebuggingRequestArguments {
    pub configuration: String,
    pub request: StartDebuggingRequestArgumentsRequest,
}

/// How the editor starts the debug adapter process and its session.
#[derive(Debug, PartialEq)]
pub struct DebugAdapterBinary {
    pub command: Option<String>,
    pub arguments: Vec<String>,
    pub envs: Vec<(String, String)>,
    pub cwd: Option<String>,
    pub connection: Option<TcpArguments>,
    pub request_args: StartDebuggingRequestArguments,
}

/// The field of a configuration that names the kind of request.
pub open spec fn request_key() -> Seq<char> {
    "request"@
}

/// The field through which the adapter learns where its support files are.
pub open spec fn extension_path_key() -> Seq<char> {
    "extensionPath"@
}

/// The kind of request a configuration names: an absent field, or one that
/// is not a string, means a launch.
pub open spec fn request_value(config: JsonView) -> Seq<char> {
    match config.get(request_key()) {
        Some(JsonView::Str(s)) => s,
        _ => "launch"@,
    }
}

/// The error given for a request field that is neither launch nor attach.
pub open spec fn invalid_request_message(request: Seq<char>) -> Seq<char> {
    "Invalid value for 'request': '"@ + request + "'. Expected \"launch\" or \"attach\""@
}

/// The kind of request a configuration asks for, or the error for a request
/// field of any other value.
pub open spec fn requested_kind(config: JsonView) -> Result<
    StartDebuggingRequestArgumentsRequest,
    Seq<char>,
> {
    let request = request_value(config);
    if request == "launch"@ {
        Ok(StartDebuggingRequestArgumentsRequest::Launch)
    } else if request == "attach"@ {
        Ok(StartDebuggingRequestArgumentsRequest::Attach)
    } else {
        Err(invalid_request_message(request))
    }
}

/// What [`dap_request_kind`] answers.
pub open spec fn dap_request_kind_result(adapter_name: Seq<char>, config: JsonView) -> Result<
    StartDebuggingRequestArgumentsRequest,
    Seq<char>,
> {
    match adapter_check(adapter_name) {
        Err(msg) => Err(msg),
        Ok(()) => requested_kind(config),
    }
}

/// The kind of request with which a launch configuration starts the adapter:
/// an attach exactly when the request field is the string "attach".
pub open spec fn launch_request_kind(config: JsonView) -> StartDebuggingRequestArgumentsRequest {
    if config.get(request_key()) == Some(JsonView::Str("attach"@)) {
        StartDebuggingRequestArgumentsRequest::Attach
    } else {
        StartDebuggingRequestArgumentsRequest::Launch
    }
}

/// The configuration handed to the adapter: the user's configuration with
/// the missing defaults filled in and with the adapter's own directory, in
/// forward slashes, as its extension path.
pub open spec fn launch_configuration(config: JsonView, assets_dir: Seq<char>) -> JsonView {
    with_defaults(config).set(extension_path_key(), JsonView::Str(with_forward_slashes(assets_dir)))
}

/// The script that the adapter process runs: the user's own adapter when
/// given, else the bundled one.
pub open spec fn adapter_script(user_path: Option<Seq<char>>, bundled: Seq<char>) -> Seq<char> {
    match user_path {
        Some(p) => p,
        None => bundled,
    }
}

/// The view of an optional string.
pub open spec fn opt_view(s: Option<String>) -> Option<Seq<char>> {
    match s {
        Some(t) => Some(t@),
        None => None,
    }
}

/// Tells which kind of request a configuration asks for, defaulting to a
/// launch; a request field of any other value is an error.
pub fn dap_request_kind(adapter_name: &str, config: &Json) -> (r: Result<
    StartDebuggingRequestArgumentsRequest,
    String,
>)
    ensures
        match r {
            Ok(kind) => dap_request_kind_result(adapter_name@, config@) == Ok::<
                StartDebuggingRequestArgumentsRequest,
                Seq<char>,
            >(kind),
            Err(msg) => dap_request_kind_result(adapter_name@, config@) == Err::<
                StartDebuggingRequestArgumentsRequest,
                Seq<char>,
            >(msg@),
        },
        r is Ok ==> adapter_name@ == ADAPTER_NAME@,
        adapter_name@ != ADAPTER_NAME@ ==> (r matches Err(msg) && adapter_check(adapter_name@)
            == Err::<(), Seq<char>>(msg@)),
{
    match verify_adapter_name(adapter_name) {
        Err(msg) => {
            return Err(msg);
        },
        Ok(()) => {},
    }
    let request: &str = match config.get("request") {
        Some(value) => match value.as_str() {
            Some(s) => s,
            None => "launch",
        },
        None => "launch",
    };
    if same_text(request, "launch") {
        Ok(StartDebuggingRequestArgumentsRequest::Launch)
    } else if same_text(request, "attach") {
        Ok(StartDebuggingRequestArgumentsRequest::Attach)
    } else {
        let mut msg = String::from_str("Invalid value for 'request': '");
        msg.append(request);
        msg.append("'. Expected \"launch\" or \"attach\"");
        Err(msg)
    }
}

/// The kind of request with which a launch configuration starts the adapter.
fn kind_of_launch(config: &Json) -> (r: StartDebuggingRequestArgumentsRequest)
    ensures
        r == launch_request_kind(config@),
{
    match config.get("request") {
        Some(value) => match value.as_str() {
            Some(s) => if same_text(s, "attach") {
                StartDebuggingRequestArgumentsRequest::Attach
            } else {
                StartDebuggingRequestArgumentsRequest::Launch
            },
            None => StartDebuggingRequestArgumentsRequest::Launch,
        },
        None => StartDebuggingRequestArgumentsRequest::Launch,
    }
}

/// The error given for a configuration text that is not JSON.
pub open spec fn parse_failure_message(text: Seq<char>) -> Seq<char> {
    "Failed to parse JSON config: "@ + json_parse_error(text)
}

/// Reads the configuration text of a debug task addressed to this adapter.
pub fn parse_config(adapter_name: &str, config_text: &str) -> (r: Result<Json, String>)
    ensures
        adapter_check(adapter_name@) is Err ==> (r matches Err(msg) && adapter_check(adapter_name@)
            == Err::<(), Seq<char>>(msg@)),
        adapter_check(adapter_name@) is Ok ==> match json_text_value(config_text@) {
            Some(value) => (r matches Ok(config) && config@ == value && json_well_formed(config@)),
            None => (r matches Err(msg) && msg@ == parse_failure_message(config_text@)),
        },
{
    match verify_adapter_name(adapter_name) {
        Err(msg) => {
            return Err(msg);
        },
        Ok(()) => {},
    }
    match parse_json_text(config_text) {
        Ok(config) => Ok(config),
        Err(e) => {
            let mut msg = String::from_str("Failed to parse JSON config: ");
            msg.append(e.as_str());
            Err(msg)
        },
    }
}

/// Describes how to start the debug adapter for a configuration: Node.js
/// runs the adapter script over stdio, with the configuration completed by
/// the missing defaults and the extension path and printed as JSON text.
///
/// `config` is the user's configuration, `assets_dir` the directory that
/// holds the adapter's support files and `bundled_adapter_path` the bundled
/// adapter script inside it.
pub fn get_dap_binary(
    adapter_name: &str,
    config: Json,
    user_provided_debug_adapter_path: Option<String>,
    assets_dir: &str,
    bundled_adapter_path: String,
) -> (r: Result<DebugAdapterBinary, String>)
    ensures
        r is Ok <==> adapter_check(adapter_name@) is Ok,
        r is Ok <==> adapter_name@ == ADAPTER_NAME@,
        r matches Err(msg) ==> adapter_check(adapter_name@) == Err::<(), Seq<char>>(msg@),
        r matches Ok(binary) ==> {
            &&& binary.command matches Some(command) && command@ == "node"@
            &&& binary.arguments@.len() == 1
            &&& binary.arguments@[0]@ == adapter_script(
                opt_view(user_provided_debug_adapter_path),
                bundled_adapter_path@,
            )
            &&& user_provided_debug_adapter_path matches Some(p) ==> binary.arguments@[0]@ == p@
            &&& user_provided_debug_adapter_path is None ==> binary.arguments@[0]@
                == bundled_adapter_path@
            &&& binary.envs@.len() == 0
            &&& binary.cwd is None
            &&& binary.connection is None
            &&& binary.request_args.configuration@ == printed_json(
                launch_configuration(config@, assets_dir@),
            )
            &&& binary.request_args.request == launch_request_kind(
                launch_configuration(config@, assets_dir@),
            )
        },
        r matches Ok(binary) ==> (reads_back(config@) ==> {
            let text = binary.request_args.configuration@;
            &&& json_text_value(text) is Some
            &&& reads_back(json_text_value(text)->0)
            &&& launch_configuration(json_text_value(text)->0, assets_dir@) == json_text_value(
                text,
            )->0
            &&& printed_json(json_text_value(text)->0) == text
        }),
{
    match verify_adapter_name(adapter_name) {
        Err(msg) => {
            return Err(msg);
        },
        Ok(()) => {},
    }
    let ghost config_in = config;
    let config = inject_defaults(config);
    let extension_path = to_forward_slashes(assets_dir);
    let config = config.set(String::from_str("extensionPath"), Json::Str(extension_path));
    let config_text = print_json(&config);
    proof {
        if reads_back(config_in@) {
            law_launch_configuration_reads_back(config_in@, assets_dir@);
            law_completion_idempotent(config_in@, assets_dir@, json_text_value(config_text@)->0);
        }
    }
    let script_path = match user_provided_debug_adapter_path {
        Some(path) => path,
        None => bundled_adapter_path,
    };
    let request = kind_of_launch(&config);
    let mut arguments: Vec<String> = Vec::new();
    arguments.push(script_path);
    Ok(
        DebugAdapterBinary {
            command: Some(String::from_str("node")),
            arguments,
            envs: Vec::new(),
            cwd: None,
            connection: None,
            request_args: StartDebuggingRequestArguments { configuration: config_text, request },
        },
    )
}

/// No default is given for the request field or for the extension path, and
/// the two are distinct fields.
proof fn lemma_fields_without_default()
    ensures
        default_value(request_key()) is None,
        default_value(extension_path_key()) is None,
        request_key() != extension_path_key(),
{
    reveal_strlit("request");
    reveal_strlit("extensionPath");
    reveal_strlit("rttConfig");
    reveal_strlit("swoConfig");
    reveal_strlit("graphConfig");
    reveal_strlit("debuggerArgs");
    reveal_strlit("preLaunchCommands");
    reveal_strlit("postLaunchCommands");
    reveal_strlit("preAttachCommands");
    reveal_strlit("postAttachCommands");
    reveal_strlit("preResetCommands");
    reveal_strlit("postResetCommands");
    reveal_strlit("overridePreEndSessionCommands");
    let fields = default_fields();
    lemma_key_index(fields, request_key());
    lemma_key_index(fields, extension_path_key());
    assert forall|i: int| 0 <= i < fields.len() implies fields[i].0 != request_key()
        && fields[i].0 != extension_path_key() by {
        assert(fields[i].0.len() != request_key().len());
        assert(fields[i].0.len() != extension_path_key().len());
    }
}

/// The configuration handed to the adapter keeps every field of the user's
/// configuration object but the extension path, fills in each missing field
/// that has a default, holds the adapter's directory in forward slashes as
/// the extension path, and has no other field.
pub proof fn law_launch_configuration_fields(config: JsonView, assets_dir: Seq<char>, k: Seq<char>)
    requires
        config is Object,
    ensures
        launch_configuration(config, assets_dir).get(k) == if k == extension_path_key() {
            Some(JsonView::Str(with_forward_slashes(assets_dir)))
        } else if config.get(k) is Some {
            config.get(k)
        } else {
            default_value(k)
        },
{
    law_defaults_fill_only_missing(config, k);
    lemma_set_get(
        with_defaults(config),
        extension_path_key(),
        JsonView::Str(with_forward_slashes(assets_dir)),
        k,
    );
}

/// A configuration that is not an object reaches the adapter as it is.
pub proof fn law_launch_configuration_non_object(config: JsonView, assets_dir: Seq<char>)
    requires
        !(config is Object),
    ensures
        launch_configuration(config, assets_dir) == config,
{
    law_defaults_leave_non_objects(config);
}

/// Whenever the editor is told a configuration's kind of request, the
/// adapter is started with that same kind of request.
pub proof fn law_request_kind_agrees(adapter_name: Seq<char>, config: JsonView, assets_dir: Seq<char>)
    requires
        dap_request_kind_result(adapter_name, config) is Ok,
    ensures
        dap_request_kind_result(adapter_name, config) == Ok::<
            StartDebuggingRequestArgumentsRequest,
            Seq<char>,
        >(launch_request_kind(launch_configuration(config, assets_dir))),
{
    reveal_strlit("launch");
    reveal_strlit("attach");
    lemma_fields_without_default();
    if config is Object {
        law_launch_configuration_fields(config, assets_dir, request_key());
    } else {
        law_launch_configuration_non_object(config, assets_dir);
    }
    assert(launch_configuration(config, assets_dir).get(request_key()) == config.get(request_key()));
    assert("launch"@ != "attach"@) by {
        assert("launch"@[0] != "attach"@[0]);
    }
}

/// A configuration without a request field asks for a launch.
pub proof fn law_request_defaults_to_launch(adapter_name: Seq<char>, config: JsonView)
    requires
        adapter_check(adapter_name) is Ok,
        config.get(request_key()) is None,
    ensures
        dap_request_kind_result(adapter_name, config) == Ok::<
            StartDebuggingRequestArgumentsRequest,
            Seq<char>,
        >(StartDebuggingRequestArgumentsRequest::Launch),
{
}


/// The configuration handed to the adapter has distinct keys in each object
/// whenever the user's configuration has.
pub proof fn law_launch_configuration_keeps_keys_distinct(config: JsonView, assets_dir: Seq<char>)
    requires
        json_well_formed(config),
    ensures
        json_well_formed(launch_configuration(config, assets_dir)),
{
    law_defaults_keep_keys_distinct(config);
    lemma_set_well_formed(
        with_defaults(config),
        extension_path_key(),
        JsonView::Str(with_forward_slashes(assets_dir)),
    );
}

/// The configuration handed to the adapter reads back from its printed text
/// whenever the user's configuration does: it keeps distinct keys and
/// integers only, and the defaults nest two deep, within what serde_json
/// reads.
pub proof fn law_launch_configuration_reads_back(config: JsonView, assets_dir: Seq<char>)
    requires
        reads_back(config),
    ensures
        reads_back(launch_configuration(config, assets_dir)),
{
    law_launch_configuration_keeps_keys_distinct(config, assets_dir);
    law_defaults_keep_integral_and_shallow(config, max_read_depth());
    let path = JsonView::Str(with_forward_slashes(assets_dir));
    lemma_update_integral(with_defaults(config), extension_path_key(), path);
    lemma_update_depth(with_defaults(config), extension_path_key(), path, max_read_depth());
}

/// Completing a configuration is idempotent: a configuration that is the
/// same JSON value as a completed one (as reading back the printed
/// configuration gives) is completed into itself.
pub proof fn law_completion_idempotent(config: JsonView, assets_dir: Seq<char>, read_back: JsonView)
    requires
        json_well_formed(config),
        json_well_formed(read_back),
        json_equiv(launch_configuration(config, assets_dir), read_back),
    ensures
        launch_configuration(read_back, assets_dir) == read_back,
{
    let completed = launch_configuration(config, assets_dir);
    let path = JsonView::Str(with_forward_slashes(assets_dir));
    lemma_fields_without_default();
    if config is Object {
        law_defaults_fill_only_missing(config, extension_path_key());
        lemma_set_get(with_defaults(config), extension_path_key(), path, extension_path_key());
        assert forall|i: int| 0 <= i < default_fields().len() implies (#[trigger] read_back.get(
            default_fields()[i].0,
        )) is Some by {
            let key = default_fields()[i].0;
            law_defaults_all_present(config, i);
            lemma_key_index(default_fields(), key);
            if key == extension_path_key() {
                assert(default_fields()[i].0 != extension_path_key());
            }
            lemma_set_get(with_defaults(config), extension_path_key(), path, key);
            lemma_equiv_get(completed, read_back, key);
        }
        lemma_or_insert_all_present(read_back, default_fields());
        lemma_equiv_get(completed, read_back, extension_path_key());
        lemma_equiv_str(with_forward_slashes(assets_dir), read_back.get(extension_path_key())->0);
        lemma_set_same(read_back, extension_path_key(), path);
    } else {
        law_launch_configuration_non_object(config, assets_dir);
        assert(!(read_back is Object));
        law_launch_configuration_non_object(read_back, assets_dir);
    }
}

/// Whatever the configuration asks for, a request addressed to another
/// adapter is refused with the unsupported-adapter error, and only this
/// adapter's requests are answered.
pub proof fn law_request_kind_only_for_own_adapter(adapter_name: Seq<char>, config: JsonView)
    ensures
        dap_request_kind_result(adapter_name, config) is Ok ==> adapter_name == ADAPTER_NAME@,
        adapter_name != ADAPTER_NAME@ ==> dap_request_kind_result(adapter_name, config) == Err::<
            StartDebuggingRequestArgumentsRequest,
            Seq<char>,
        >(unsupported_adapter_message(adapter_name)),
{
}

/// The adapter process runs the user's own adapter script whenever one is
/// given, and the bundled one otherwise.
pub proof fn law_user_script_runs(user_path: Option<Seq<char>>, bundled: Seq<char>)
    ensures
        user_path matches Some(p) ==> adapter_script(user_path, bundled) == p,
        user_path is None ==> adapter_script(user_path, bundled) == bundled,
{
}
} // verus!
