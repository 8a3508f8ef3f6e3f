use vstd::prelude::*;

use crate::adapter::{adapter_check, verify_adapter_name};
use crate::dap::{
    dap_request_kind_result, opt_view, request_key, StartDebuggingRequestArgumentsRequest,
};
use crate::defaults::lemma_depth_widen;
use crate::json::{
    entries_view, items_view, json_depth_at_most, json_equiv, json_integral, json_text_value,
    json_well_formed, keys_distinct, lemma_equiv_get, lemma_equiv_str, lemma_key_index_is,
    lemma_equiv_scalar, lemma_get_well_formed, print_json, printed_json, reads_back, Json, JsonView,
};

verus! {

/// A request to start a program under the debugger.
#[derive(Debug, PartialEq)]
pub struct LaunchRequest {
    pub program: String,
    pub cwd: Option<String>,
    pub args: Vec<String>,
    pub envs: Vec<(String, String)>,
}

/// A request to attach to a running process.
#[derive(Debug, PartialEq)]
pub struct AttachRequest {
    pub process_id: Option<u32>,
}

/// What a new debug session asks for.
#[derive(Debug, PartialEq)]
pub enum DebugRequest {
    Launch(LaunchRequest),
    Attach(AttachRequest),
}

/// A debug session as the editor's new-session dialog describes it.
#[derive(Debug, PartialEq)]
pub struct DebugConfig {
    pub label: String,
    pub adapter: String,
    pub request: DebugRequest,
    pub stop_on_entry: Option<bool>,
}

/// TCP connection parameters that a user may give a scenario.
#[derive(Debug, PartialEq)]
pub struct TcpArgumentsTemplate {
    pub port: Option<u16>,
    pub host: Option<u32>,
    pub timeout: Option<u64>,
}

/// A task that builds the program to debug.
#[derive(Debug, PartialEq)]
pub struct BuildTaskTemplate {
    pub label: String,
    pub command: String,
    pub args: Vec<String>,
    pub env: Vec<(String, String)>,
    pub cwd: Option<String>,
}

/// A build task given in full, with the locator that turns it into a
/// debug target.
#[derive(Debug, PartialEq)]
pub struct BuildTaskDefinitionTemplatePayload {
    pub locator_name: Option<String>,
    pub template: BuildTaskTemplate,
}

/// A build step run before a debug session.
#[derive(Debug, PartialEq)]
pub enum BuildTaskDefinition {
    ByName(String),
    Template(BuildTaskDefinitionTemplatePayload),
}

/// A debug scenario as the user's debug configuration file holds it.
#[derive(Debug, PartialEq)]
pub struct DebugScenario {
    pub label: String,
    pub adapter: String,
    pub build: Option<BuildTaskDefinition>,
    pub config: String,
    pub tcp_connection: Option<TcpArgumentsTemplate>,
}

/// The error for a launch that passes arguments to the program.
pub open spec fn arguments_message() -> Seq<char> {
    "Passing arguments is not supported by this debug adapter"@
}

/// The error for a launch that sets environment variables.
pub open spec fn environment_message() -> Seq<char> {
    "Setting environment variables is not supported by this debug adapter"@
}

/// The error for a request to attach to a process.
pub open spec fn attach_message() -> Seq<char> {
    "Attaching to a process is not supported by this debug adapter"@
}

/// The adapter configuration for launching `program`: a single core that
/// runs it, flashed before the launch, halted after reset when the session
/// stops on entry.
pub open spec fn scenario_config(
    program: Seq<char>,
    cwd: Option<Seq<char>>,
    stop_on_entry: Option<bool>,
) -> JsonView {
    JsonView::Object(
        seq![
            ("cwd"@, match cwd {
                Some(dir) => JsonView::Str(dir),
                None => JsonView::Null,
            }),
            ("coreConfigs"@, JsonView::Array(
                seq![JsonView::Object(seq![("programBinary"@, JsonView::Str(program))])],
            )),
            ("flashingConfig"@, JsonView::Object(
                seq![
                    ("flashingEnabled"@, JsonView::Bool(true)),
                    ("haltAfterReset"@, match stop_on_entry {
                        Some(b) => JsonView::Bool(b),
                        None => JsonView::Null,
                    }),
                ],
            )),
            ("request"@, JsonView::Str("launch"@)),
        ],
    )
}

fn text(s: &str) -> (r: String)
    ensures
        r@ == s@,
{
    String::from_str(s)
}

fn optional_text(s: Option<String>) -> (r: Json)
    ensures
        r@ == match opt_view(s) {
            Some(t) => JsonView::Str(t),
            None => JsonView::Null,
        },
{
    match s {
        Some(t) => Json::Str(t),
        None => Json::Null,
    }
}

fn optional_bool(b: Option<bool>) -> (r: Json)
    ensures
        r@ == match b {
            Some(v) => JsonView::Bool(v),
            None => JsonView::Null,
        },
{
    match b {
        Some(v) => Json::Bool(v),
        None => Json::Null,
    }
}

/// Builds the adapter configuration for launching `program`.
fn launch_config(program: String, cwd: Option<String>, stop_on_entry: Option<bool>) -> (r: Json)
    ensures
        r@ == scenario_config(program@, opt_view(cwd), stop_on_entry),
{
    let ghost program_view = program@;
    let ghost cwd_view = opt_view(cwd);

    let mut core: Vec<(String, Json)> = Vec::new();
    core.push((text("programBinary"), Json::Str(program)));
    let core_json = Json::object(core);
    let mut cores: Vec<Json> = Vec::new();
    cores.push(core_json);
    let ghost cores_seq = cores@;
    let cores_json = Json::array(cores);
    assert(items_view(cores_seq) =~= seq![
        JsonView::Object(seq![("programBinary"@, JsonView::Str(program_view))]),
    ]) by {
        assert(entries_view(core@) =~= seq![("programBinary"@, JsonView::Str(program_view))]);
    }

    let mut flashing: Vec<(String, Json)> = Vec::new();
    flashing.push((text("flashingEnabled"), Json::Bool(true)));
    flashing.push((text("haltAfterReset"), optional_bool(stop_on_entry)));
    let ghost flashing_seq = flashing@;
    let flashing_json = Json::object(flashing);

    let mut entries: Vec<(String, Json)> = Vec::new();
    entries.push((text("cwd"), optional_text(cwd)));
    entries.push((text("coreConfigs"), cores_json));
    entries.push((text("flashingConfig"), flashing_json));
    entries.push((text("request"), Json::Str(text("launch"))));
    let ghost entries_seq = entries@;
    let r = Json::object(entries);
    assert(entries_view(flashing_seq) =~= seq![
        ("flashingEnabled"@, JsonView::Bool(true)),
        ("haltAfterReset"@, match stop_on_entry {
            Some(b) => JsonView::Bool(b),
            None => JsonView::Null,
        }),
    ]);
    assert(r@ == scenario_config(program_view, cwd_view, stop_on_entry)) by {
        if let JsonView::Object(es) = scenario_config(program_view, cwd_view, stop_on_entry) {
            assert(entries_view(entries_seq) =~= es);
        }
    }
    r
}

/// A scenario configuration holds no number and nests three deep, so it
/// reads back from its printed text.
proof fn lemma_scenario_config_reads_back(
    program: Seq<char>,
    cwd: Option<Seq<char>>,
    stop_on_entry: Option<bool>,
)
    ensures
        reads_back(scenario_config(program, cwd, stop_on_entry)),
{
    law_scenario_config_keys_distinct(program, cwd, stop_on_entry);
    let config = scenario_config(program, cwd, stop_on_entry);
    if let JsonView::Object(es) = config {
        let core = JsonView::Object(seq![("programBinary"@, JsonView::Str(program))]);
        assert(json_integral(core) && json_depth_at_most(core, 1)) by {
            if let JsonView::Object(ce) = core {
                assert(json_integral(ce[0].1));
                assert(json_depth_at_most(ce[0].1, 0));
            }
        }
        assert(json_integral(es[1].1) && json_depth_at_most(es[1].1, 2)) by {
            if let JsonView::Array(items) = es[1].1 {
                assert(items[0] == core);
            }
        }
        assert(json_integral(es[2].1) && json_depth_at_most(es[2].1, 2)) by {
            if let JsonView::Object(fe) = es[2].1 {
                assert(json_integral(fe[0].1) && json_depth_at_most(fe[0].1, 1));
                assert(json_integral(fe[1].1) && json_depth_at_most(fe[1].1, 1));
            }
        }
        assert(json_integral(es[0].1) && json_depth_at_most(es[0].1, 2));
        assert(json_integral(es[3].1) && json_depth_at_most(es[3].1, 2));
        assert forall|i: int| 0 <= i < es.len() implies json_integral(#[trigger] es[i].1)
            && json_depth_at_most(es[i].1, 2) by {}
        assert(json_depth_at_most(config, 3));
        lemma_depth_widen(config, 3, 127);
    }
}

/// Looking the request field up in a scenario configuration gives "launch".
proof fn lemma_scenario_request(
    program: Seq<char>,
    cwd: Option<Seq<char>>,
    stop_on_entry: Option<bool>,
)
    ensures
        scenario_config(program, cwd, stop_on_entry).get(request_key()) == Some(
            JsonView::Str("launch"@),
        ),
{
    reveal_strlit("cwd");
    reveal_strlit("coreConfigs");
    reveal_strlit("flashingConfig");
    reveal_strlit("request");
    let config = scenario_config(program, cwd, stop_on_entry);
    if let JsonView::Object(es) = config {
        assert(es[0].0.len() != request_key().len());
        assert(es[1].0.len() != request_key().len());
        assert(es[2].0.len() != request_key().len());
        lemma_key_index_is(es, request_key(), 3);
    }
}

/// Turns a new-session request into a debug scenario for this adapter: a
/// launch of the program with the flashing set up, where the launch neither
/// passes arguments nor sets environment variables; anything else is refused.
pub fn dap_config_to_scenario(debug_config: DebugConfig) -> (r: Result<DebugScenario, String>)
    ensures
        adapter_check(debug_config.adapter@) is Err ==> (r matches Err(msg)
            && adapter_check(debug_config.adapter@) == Err::<(), Seq<char>>(msg@)),
        adapter_check(debug_config.adapter@) is Ok ==> match debug_config.request {
            DebugRequest::Launch(launch) => if launch.args@.len() > 0 {
                (r matches Err(msg) && msg@ == arguments_message())
            } else if launch.envs@.len() > 0 {
                (r matches Err(msg) && msg@ == environment_message())
            } else {
                (r matches Ok(scenario) && {
                    &&& scenario.label@ == debug_config.label@
                    &&& scenario.adapter@ == debug_config.adapter@
                    &&& scenario.build is None
                    &&& printed_json(
                        scenario_config(
                            launch.program@,
                            opt_view(launch.cwd),
                            debug_config.stop_on_entry,
                        ),
                    ) == scenario.config@
                    &&& json_text_value(scenario.config@) is Some
                    &&& json_text_value(scenario.config@)->0.get("flashingConfig"@) matches Some(
                        flashing,
                    ) && flashing.get("haltAfterReset"@) == Some(
                        match debug_config.stop_on_entry {
                            Some(b) => JsonView::Bool(b),
                            None => JsonView::Null,
                        },
                    ) && flashing.get("flashingEnabled"@) == Some(JsonView::Bool(true))
                    &&& json_text_value(scenario.config@)->0.get("cwd"@) == Some(
                        match opt_view(launch.cwd) {
                            Some(dir) => JsonView::Str(dir),
                            None => JsonView::Null,
                        },
                    )
                    &&& dap_request_kind_result(
                        scenario.adapter@,
                        json_text_value(scenario.config@)->0,
                    ) == Ok::<StartDebuggingRequestArgumentsRequest, Seq<char>>(
                        StartDebuggingRequestArgumentsRequest::Launch,
                    )
                    &&& scenario.tcp_connection is None
                })
            },
            DebugRequest::Attach(_) => (r matches Err(msg) && msg@ == attach_message()),
        },
{
    match verify_adapter_name(debug_config.adapter.as_str()) {
        Err(msg) => {
            return Err(msg);
        },
        Ok(()) => {},
    }
    let DebugConfig { label, adapter, request, stop_on_entry } = debug_config;
    match request {
        DebugRequest::Launch(launch_request) => {
            if launch_request.args.len() > 0 {
                return Err(text("Passing arguments is not supported by this debug adapter"));
            }
            if launch_request.envs.len() > 0 {
                return Err(
                    text("Setting environment variables is not supported by this debug adapter"),
                );
            }
            let LaunchRequest { program, cwd, args: _, envs: _ } = launch_request;
            let ghost program_view = program@;
            let ghost cwd_view = opt_view(cwd);
            let config = launch_config(program, cwd, stop_on_entry);
            let text = print_json(&config);
            proof {
                lemma_scenario_config_reads_back(program_view, cwd_view, stop_on_entry);
                lemma_scenario_request(program_view, cwd_view, stop_on_entry);
                law_scenario_asks_for_launch(adapter@, program_view, cwd_view, stop_on_entry);
                let read_back = json_text_value(text@)->0;
                lemma_equiv_get(config@, read_back, request_key());
                lemma_equiv_str("launch"@, read_back.get(request_key())->0);
                law_scenario_fields(program_view, cwd_view, stop_on_entry);
                let flashing_key = "flashingConfig"@;
                lemma_equiv_get(config@, read_back, flashing_key);
                lemma_equiv_get(config@, read_back, "cwd"@);
                lemma_equiv_scalar(config@.get("cwd"@)->0, read_back.get("cwd"@)->0);
                let flashing = config@.get(flashing_key)->0;
                let read_flashing = read_back.get(flashing_key)->0;
                lemma_get_well_formed(read_back, flashing_key);
                lemma_equiv_get(flashing, read_flashing, "haltAfterReset"@);
                lemma_equiv_get(flashing, read_flashing, "flashingEnabled"@);
                lemma_equiv_scalar(
                    flashing.get("haltAfterReset"@)->0,
                    read_flashing.get("haltAfterReset"@)->0,
                );
                lemma_equiv_scalar(
                    flashing.get("flashingEnabled"@)->0,
                    read_flashing.get("flashingEnabled"@)->0,
                );
            }
            Ok(DebugScenario { label, adapter, build: None, config: text, tcp_connection: None })
        },
        DebugRequest::Attach(_) => {
            Err(text("Attaching to a process is not supported by this debug adapter"))
        },
    }
}

/// A scenario made from a new-session request asks for a launch when the
/// editor later asks for its kind of request.
pub proof fn law_scenario_asks_for_launch(
    adapter_name: Seq<char>,
    program: Seq<char>,
    cwd: Option<Seq<char>>,
    stop_on_entry: Option<bool>,
)
    requires
        adapter_check(adapter_name) is Ok,
    ensures
        dap_request_kind_result(adapter_name, scenario_config(program, cwd, stop_on_entry))
            == Ok::<StartDebuggingRequestArgumentsRequest, Seq<char>>(
            StartDebuggingRequestArgumentsRequest::Launch,
        ),
{
    reveal_strlit("cwd");
    reveal_strlit("coreConfigs");
    reveal_strlit("flashingConfig");
    reveal_strlit("request");
    reveal_strlit("launch");
    let config = scenario_config(program, cwd, stop_on_entry);
    if let JsonView::Object(es) = config {
        assert(es[0].0.len() != request_key().len());
        assert(es[1].0.len() != request_key().len());
        assert(es[2].0.len() != request_key().len());
        lemma_key_index_is(es, request_key(), 3);
    }
}

/// Each object of a scenario configuration has distinct keys.
pub proof fn law_scenario_config_keys_distinct(
    program: Seq<char>,
    cwd: Option<Seq<char>>,
    stop_on_entry: Option<bool>,
)
    ensures
        json_well_formed(scenario_config(program, cwd, stop_on_entry)),
{
    reveal_strlit("cwd");
    reveal_strlit("coreConfigs");
    reveal_strlit("flashingConfig");
    reveal_strlit("request");
    reveal_strlit("flashingEnabled");
    reveal_strlit("haltAfterReset");
    let config = scenario_config(program, cwd, stop_on_entry);
    if let JsonView::Object(es) = config {
        assert(keys_distinct(es)) by {
            assert forall|a: int, b: int| 0 <= a < b < es.len() implies es[a].0 != es[b].0 by {
                assert(es[a].0.len() != es[b].0.len());
            }
        }
        let core = JsonView::Object(seq![("programBinary"@, JsonView::Str(program))]);
        assert(json_well_formed(core)) by {
            if let JsonView::Object(ce) = core {
                assert(json_well_formed(ce[0].1));
            }
        }
        assert(json_well_formed(es[1].1)) by {
            if let JsonView::Array(items) = es[1].1 {
                assert(items[0] == core);
            }
        }
        assert(json_well_formed(es[2].1)) by {
            if let JsonView::Object(fe) = es[2].1 {
                assert(fe[0].0.len() != fe[1].0.len());
                assert(json_well_formed(fe[0].1));
                assert(json_well_formed(fe[1].1));
            }
        }
        assert(json_well_formed(es[0].1));
        assert(json_well_formed(es[3].1));
        assert forall|i: int| 0 <= i < es.len() implies json_well_formed(#[trigger] es[i].1) by {}
    }
}

/// A scenario configuration launches: the program is the single core's
/// binary, the working directory is the request's (null when none is given),
/// flashing is enabled, and the target halts after reset exactly when the
/// session stops on entry (null when that is left open).
pub proof fn law_scenario_fields(program: Seq<char>, cwd: Option<Seq<char>>, stop_on_entry: Option<bool>)
    ensures
        scenario_config(program, cwd, stop_on_entry).get("flashingConfig"@) matches Some(flashing)
            && flashing.get("haltAfterReset"@) == Some(
            match stop_on_entry {
                Some(b) => JsonView::Bool(b),
                None => JsonView::Null,
            },
        ) && flashing.get("flashingEnabled"@) == Some(JsonView::Bool(true)),
        scenario_config(program, cwd, stop_on_entry).get("cwd"@) == Some(
            match cwd {
                Some(dir) => JsonView::Str(dir),
                None => JsonView::Null,
            },
        ),
        scenario_config(program, cwd, stop_on_entry).get("coreConfigs"@) == Some(
            JsonView::Array(seq![JsonView::Object(seq![("programBinary"@, JsonView::Str(program))])]),
        ),
        scenario_config(program, cwd, stop_on_entry).get("request"@) == Some(
            JsonView::Str("launch"@),
        ),
{
    reveal_strlit("cwd");
    reveal_strlit("coreConfigs");
    reveal_strlit("flashingConfig");
    reveal_strlit("request");
    reveal_strlit("flashingEnabled");
    reveal_strlit("haltAfterReset");
    let config = scenario_config(program, cwd, stop_on_entry);
    if let JsonView::Object(es) = config {
        lemma_key_index_is(es, "cwd"@, 0);
        assert(es[0].0.len() != "coreConfigs"@.len());
        lemma_key_index_is(es, "coreConfigs"@, 1);
        assert(es[0].0.len() != "flashingConfig"@.len());
        assert(es[1].0.len() != "flashingConfig"@.len());
        lemma_key_index_is(es, "flashingConfig"@, 2);
        assert(es[0].0.len() != "request"@.len());
        assert(es[1].0.len() != "request"@.len());
        assert(es[2].0.len() != "request"@.len());
        lemma_key_index_is(es, "request"@, 3);
        if let JsonView::Object(fe) = es[2].1 {
            lemma_key_index_is(fe, "flashingEnabled"@, 0);
            assert(fe[0].0.len() != "haltAfterReset"@.len());
            lemma_key_index_is(fe, "haltAfterReset"@, 1);
        }
    }
}

} // verus!
