use vstd::prelude::*;

use crate::json::{
    entries_get, entries_view, items_view, lemma_get_push, lemma_key_index,
    lemma_or_insert_get, lemma_or_insert_well_formed, json_well_formed, keys_distinct, Json,
    JsonView, JsonNumber, decimal_text, json_integral, json_depth_at_most, integer_text,
    lemma_update_integral, lemma_update_depth,
};

verus! {

/// How many fields the adapter fills in when the configuration lacks them.
pub const DEFAULT_FIELD_COUNT: usize = 11;

/// `{"enabled": false, "decoders": []}`: tracing switched off.
pub open spec fn disabled_trace() -> Seq<(Seq<char>, JsonView)> {
    seq![("enabled"@, JsonView::Bool(false)), ("decoders"@, JsonView::Array(seq![]))]
}

/// The fields, in the order in which they are filled in, that the debug
/// adapter's own front end would otherwise have supplied, each with the value
/// that stands in when the user's configuration lacks the field.
pub open spec fn default_fields() -> Seq<(Seq<char>, JsonView)> {
    seq![
        ("rttConfig"@, JsonView::Object(disabled_trace())),
        ("swoConfig"@, JsonView::Object(disabled_trace() + seq![
            ("cpuFrequency"@, JsonView::Number(decimal_text(0))),
            ("swoFrequency"@, JsonView::Number(decimal_text(0))),
            ("source"@, JsonView::Str("probe"@)),
        ])),
        ("graphConfig"@, JsonView::Array(seq![])),
        ("debuggerArgs"@, JsonView::Array(seq![])),
        ("preLaunchCommands"@, JsonView::Array(seq![])),
        ("postLaunchCommands"@, JsonView::Array(seq![])),
        ("preAttachCommands"@, JsonView::Array(seq![])),
        ("postAttachCommands"@, JsonView::Array(seq![])),
        ("preResetCommands"@, JsonView::Array(seq![])),
        ("postResetCommands"@, JsonView::Array(seq![])),
        ("overridePreEndSessionCommands"@, JsonView::Null),
    ]
}

/// `config` with each of `fields` filled in, first to last, where it lacks it.
pub open spec fn or_insert_all(config: JsonView, fields: Seq<(Seq<char>, JsonView)>) -> JsonView
    decreases fields.len(),
{
    if fields.len() == 0 {
        config
    } else {
        or_insert_all(config, fields.drop_last()).or_insert(fields.last().0, fields.last().1)
    }
}

/// The configuration with every default field filled in where it is missing.
pub open spec fn with_defaults(config: JsonView) -> JsonView {
    or_insert_all(config, default_fields())
}

/// The value that stands in for field `key` when the configuration lacks
/// it; nothing for a field that has no default.
pub open spec fn default_value(key: Seq<char>) -> Option<JsonView> {
    entries_get(default_fields(), key)
}

proof fn lemma_or_insert_all_get(config: JsonView, fields: Seq<(Seq<char>, JsonView)>, k: Seq<char>)
    requires
        config is Object,
    ensures
        or_insert_all(config, fields) is Object,
        or_insert_all(config, fields).get(k) == if config.get(k) is Some {
            config.get(k)
        } else {
            entries_get(fields, k)
        },
    decreases fields.len(),
{
    if fields.len() > 0 {
        let rest = fields.drop_last();
        let last = fields.last();
        lemma_or_insert_all_get(config, rest, k);
        lemma_or_insert_get(or_insert_all(config, rest), last.0, last.1, k);
        assert(fields == rest.push((last.0, last.1)));
        lemma_get_push(rest, last.0, last.1, k);
    }
}

proof fn lemma_or_insert_all_non_object(config: JsonView, fields: Seq<(Seq<char>, JsonView)>)
    requires
        !(config is Object),
    ensures
        or_insert_all(config, fields) == config,
    decreases fields.len(),
{
    if fields.len() > 0 {
        lemma_or_insert_all_non_object(config, fields.drop_last());
    }
}

pub(crate) proof fn lemma_or_insert_all_present(config: JsonView, fields: Seq<(Seq<char>, JsonView)>)
    requires
        config is Object,
        forall|i: int| 0 <= i < fields.len() ==> (#[trigger] config.get(fields[i].0)) is Some,
    ensures
        or_insert_all(config, fields) == config,
    decreases fields.len(),
{
    if fields.len() > 0 {
        let rest = fields.drop_last();
        assert forall|i: int| 0 <= i < rest.len() implies (#[trigger] config.get(rest[i].0)) is Some by {
            assert(rest[i] == fields[i]);
        }
        lemma_or_insert_all_present(config, rest);
        assert(config.get(fields[fields.len() - 1].0) is Some);
        if let JsonView::Object(entries) = config {
            lemma_key_index(entries, fields.last().0);
        }
    }
}

/// Every field of `fields` has a value there.
proof fn lemma_entries_get_own_keys(fields: Seq<(Seq<char>, JsonView)>, i: int)
    requires
        0 <= i < fields.len(),
    ensures
        entries_get(fields, fields[i].0) is Some,
{
    lemma_key_index(fields, fields[i].0);
}

/// Filling in the defaults keeps a configuration object an object; each of
/// its fields keeps the value the user gave it, a missing field that has a
/// default gets the default, and no other field appears.
pub proof fn law_defaults_fill_only_missing(config: JsonView, k: Seq<char>)
    requires
        config is Object,
    ensures
        with_defaults(config) is Object,
        with_defaults(config).get(k) == if config.get(k) is Some {
            config.get(k)
        } else {
            default_value(k)
        },
{
    lemma_or_insert_all_get(config, default_fields(), k);
}

/// A configuration that is not an object is left as it is.
pub proof fn law_defaults_leave_non_objects(config: JsonView)
    requires
        !(config is Object),
    ensures
        with_defaults(config) == config,
{
    lemma_or_insert_all_non_object(config, default_fields());
}

/// After the defaults are filled in, every field with a default is present.
pub proof fn law_defaults_all_present(config: JsonView, i: int)
    requires
        config is Object,
        0 <= i < default_fields().len(),
    ensures
        with_defaults(config).get(default_fields()[i].0) is Some,
{
    lemma_entries_get_own_keys(default_fields(), i);
    law_defaults_fill_only_missing(config, default_fields()[i].0);
}

/// Filling in the defaults a second time changes nothing.
pub proof fn law_defaults_idempotent(config: JsonView)
    ensures
        with_defaults(with_defaults(config)) == with_defaults(config),
{
    if config is Object {
        let filled = with_defaults(config);
        law_defaults_fill_only_missing(config, Seq::empty());
        assert forall|i: int| 0 <= i < default_fields().len() implies (#[trigger] filled.get(
            default_fields()[i].0,
        )) is Some by {
            law_defaults_all_present(config, i);
        }
        lemma_or_insert_all_present(filled, default_fields());
    } else {
        law_defaults_leave_non_objects(config);
    }
}

/// Every default value has distinct keys in each of its objects.
proof fn lemma_default_values_well_formed(i: int)
    requires
        0 <= i < default_fields().len(),
    ensures
        json_well_formed(default_fields()[i].1),
{
    reveal_strlit("enabled");
    reveal_strlit("decoders");
    reveal_strlit("cpuFrequency");
    reveal_strlit("swoFrequency");
    reveal_strlit("source");
    reveal_strlit("probe");
    let rtt = disabled_trace();
    assert(keys_distinct(rtt)) by {
        assert(rtt[0].0.len() != rtt[1].0.len());
    }
    let swo = disabled_trace() + seq![
        ("cpuFrequency"@, JsonView::Number(decimal_text(0))),
        ("swoFrequency"@, JsonView::Number(decimal_text(0))),
        ("source"@, JsonView::Str("probe"@)),
    ];
    assert("cpuFrequency"@[0] != "swoFrequency"@[0]);
    assert(keys_distinct(swo)) by {
        assert forall|a: int, b: int| 0 <= a < b < swo.len() implies swo[a].0 != swo[b].0 by {
            if a == 2 && b == 3 {
                assert(swo[a].0[0] != swo[b].0[0]);
            } else {
                assert(swo[a].0.len() != swo[b].0.len());
            }
        }
    }
    assert(json_well_formed(JsonView::Array(seq![])));
    assert(json_well_formed(JsonView::Object(rtt))) by {
        assert(json_well_formed(rtt[0].1));
        assert(json_well_formed(rtt[1].1));
    }
    assert(json_well_formed(JsonView::Object(swo))) by {
        assert forall|m: int| 0 <= m < swo.len() implies json_well_formed(#[trigger] swo[m].1) by {
            assert(json_well_formed(JsonView::Array(seq![])));
        }
    }
}

proof fn lemma_or_insert_all_well_formed(config: JsonView, fields: Seq<(Seq<char>, JsonView)>)
    requires
        json_well_formed(config),
        forall|i: int| 0 <= i < fields.len() ==> json_well_formed(#[trigger] fields[i].1),
    ensures
        json_well_formed(or_insert_all(config, fields)),
    decreases fields.len(),
{
    if fields.len() > 0 {
        let rest = fields.drop_last();
        assert forall|i: int| 0 <= i < rest.len() implies json_well_formed(#[trigger] rest[i].1) by {
            assert(rest[i] == fields[i]);
        }
        lemma_or_insert_all_well_formed(config, rest);
        assert(json_well_formed(fields[fields.len() - 1].1));
        lemma_or_insert_well_formed(or_insert_all(config, rest), fields.last().0, fields.last().1);
    }
}

/// Filling in the defaults keeps every object's keys distinct.
pub proof fn law_defaults_keep_keys_distinct(config: JsonView)
    requires
        json_well_formed(config),
    ensures
        json_well_formed(with_defaults(config)),
{
    assert forall|i: int| 0 <= i < default_fields().len() implies json_well_formed(
        #[trigger] default_fields()[i].1,
    ) by {
        lemma_default_values_well_formed(i);
    }
    lemma_or_insert_all_well_formed(config, default_fields());
}

/// Every default value is integral and nests at most two deep.
proof fn lemma_default_values_shallow(i: int)
    requires
        0 <= i < default_fields().len(),
    ensures
        json_integral(default_fields()[i].1),
        json_depth_at_most(default_fields()[i].1, 2),
{
    let zero = decimal_text(0);
    assert(zero == seq!['0']);
    assert(integer_text(zero));
    let rtt = disabled_trace();
    let swo = disabled_trace() + seq![
        ("cpuFrequency"@, JsonView::Number(decimal_text(0))),
        ("swoFrequency"@, JsonView::Number(decimal_text(0))),
        ("source"@, JsonView::Str("probe"@)),
    ];
    let empty = JsonView::Array(seq![]);
    assert(json_integral(empty));
    assert(json_depth_at_most(empty, 1));
    assert(json_depth_at_most(empty, 2));
    assert(json_integral(JsonView::Object(rtt))) by {
        assert(json_integral(rtt[0].1));
        assert(json_integral(rtt[1].1));
    }
    assert(json_depth_at_most(JsonView::Object(rtt), 2)) by {
        assert(json_depth_at_most(rtt[0].1, 1));
        assert(json_depth_at_most(rtt[1].1, 1));
    }
    assert(json_integral(JsonView::Object(swo))) by {
        assert forall|m: int| 0 <= m < swo.len() implies json_integral(#[trigger] swo[m].1) by {}
    }
    assert(json_depth_at_most(JsonView::Object(swo), 2)) by {
        assert forall|m: int| 0 <= m < swo.len() implies json_depth_at_most(#[trigger] swo[m].1, 1) by {}
    }
}

proof fn lemma_or_insert_all_shallow(config: JsonView, fields: Seq<(Seq<char>, JsonView)>, depth: nat)
    requires
        json_integral(config),
        json_depth_at_most(config, depth),
        depth >= 3,
        forall|i: int| 0 <= i < fields.len() ==> json_integral(#[trigger] fields[i].1),
        forall|i: int| 0 <= i < fields.len() ==> json_depth_at_most(#[trigger] fields[i].1, 2),
    ensures
        json_integral(or_insert_all(config, fields)),
        json_depth_at_most(or_insert_all(config, fields), depth),
    decreases fields.len(),
{
    if fields.len() > 0 {
        let rest = fields.drop_last();
        assert forall|i: int| 0 <= i < rest.len() implies json_integral(#[trigger] rest[i].1)
            && json_depth_at_most(rest[i].1, 2) by {
            assert(rest[i] == fields[i]);
        }
        lemma_or_insert_all_shallow(config, rest, depth);
        let last = fields[fields.len() - 1];
        assert(json_integral(last.1) && json_depth_at_most(last.1, 2));
        lemma_depth_widen(last.1, 2, (depth - 1) as nat);
        lemma_update_integral(or_insert_all(config, rest), last.0, last.1);
        lemma_update_depth(or_insert_all(config, rest), last.0, last.1, depth);
    }
}

/// A document within a nesting bound is within every larger bound.
pub proof fn lemma_depth_widen(j: JsonView, small: nat, large: nat)
    requires
        json_depth_at_most(j, small),
        small <= large,
    ensures
        json_depth_at_most(j, large),
    decreases j,
{
    match j {
        JsonView::Array(items) => {
            assert forall|i: int| 0 <= i < items.len() implies json_depth_at_most(
                #[trigger] items[i],
                (large - 1) as nat,
            ) by {
                lemma_depth_widen(items[i], (small - 1) as nat, (large - 1) as nat);
            }
        },
        JsonView::Object(entries) => {
            assert forall|i: int| 0 <= i < entries.len() implies json_depth_at_most(
                #[trigger] entries[i].1,
                (large - 1) as nat,
            ) by {
                lemma_depth_widen(entries[i].1, (small - 1) as nat, (large - 1) as nat);
            }
        },
        _ => {},
    }
}

/// Filling in the defaults keeps a document integral, and within any
/// nesting bound of at least three.
pub proof fn law_defaults_keep_integral_and_shallow(config: JsonView, depth: nat)
    requires
        json_integral(config),
        json_depth_at_most(config, depth),
        depth >= 3,
    ensures
        json_integral(with_defaults(config)),
        json_depth_at_most(with_defaults(config), depth),
{
    assert forall|i: int| 0 <= i < default_fields().len() implies json_integral(
        #[trigger] default_fields()[i].1,
    ) && json_depth_at_most(default_fields()[i].1, 2) by {
        lemma_default_values_shallow(i);
    }
    lemma_or_insert_all_shallow(config, default_fields(), depth);
}

fn text(s: &str) -> (r: String)
    ensures
        r@ == s@,
{
    s.to_owned()
}

fn empty_array() -> (r: Json)
    ensures
        r@ == JsonView::Array(seq![]),
{
    let r = Json::array(Vec::new());
    assert(items_view(Seq::<Json>::empty()) =~= seq![]);
    r
}

/// The entries of [`disabled_trace`].
fn disabled_trace_entries() -> (r: Vec<(String, Json)>)
    ensures
        entries_view(r@) == disabled_trace(),
{
    let mut r: Vec<(String, Json)> = Vec::new();
    r.push((text("enabled"), Json::Bool(false)));
    r.push((text("decoders"), empty_array()));
    assert(entries_view(r@) =~= disabled_trace());
    r
}

/// Default field number `i`.
fn default_field(i: usize) -> (r: (String, Json))
    requires
        i < DEFAULT_FIELD_COUNT,
    ensures
        (r.0@, r.1@) == default_fields()[i as int],
{
    if i == 0 {
        (text("rttConfig"), Json::object(disabled_trace_entries()))
    } else if i == 1 {
        let mut swo = disabled_trace_entries();
        swo.push((text("cpuFrequency"), Json::Number(JsonNumber::from_u64(0))));
        swo.push((text("swoFrequency"), Json::Number(JsonNumber::from_u64(0))));
        swo.push((text("source"), Json::Str(text("probe"))));
        assert(entries_view(swo@) =~= disabled_trace() + seq![
            ("cpuFrequency"@, JsonView::Number(decimal_text(0))),
            ("swoFrequency"@, JsonView::Number(decimal_text(0))),
            ("source"@, JsonView::Str("probe"@)),
        ]);
        (text("swoConfig"), Json::object(swo))
    } else if i == 2 {
        (text("graphConfig"), empty_array())
    } else if i == 3 {
        (text("debuggerArgs"), empty_array())
    } else if i == 4 {
        (text("preLaunchCommands"), empty_array())
    } else if i == 5 {
        (text("postLaunchCommands"), empty_array())
    } else if i == 6 {
        (text("preAttachCommands"), empty_array())
    } else if i == 7 {
        (text("postAttachCommands"), empty_array())
    } else if i == 8 {
        (text("preResetCommands"), empty_array())
    } else if i == 9 {
        (text("postResetCommands"), empty_array())
    } else {
        (text("overridePreEndSessionCommands"), Json::Null)
    }
}

/// Fills in, where the configuration object lacks them, the fields that the
/// debug adapter expects its front end to have supplied; a field that the
/// configuration has keeps its value, and a configuration that is not an
/// object is returned as it is.
pub fn inject_defaults(config: Json) -> (r: Json)
    ensures
        r@ == with_defaults(config@),
{
    let ghost given = config@;
    let ghost fields = default_fields();
    let mut config = config;
    let mut i: usize = 0;
    assert(fields.take(0) =~= Seq::<(Seq<char>, JsonView)>::empty());
    while i < DEFAULT_FIELD_COUNT
        invariant
            fields == default_fields(),
            fields.len() == DEFAULT_FIELD_COUNT,
            i <= DEFAULT_FIELD_COUNT,
            config@ == or_insert_all(given, fields.take(i as int)),
        decreases DEFAULT_FIELD_COUNT - i,
    {
        let (key, value) = default_field(i);
        config = config.or_insert(key, value);
        assert(fields.take(i + 1).drop_last() =~= fields.take(i as int));
        i = i + 1;
    }
    assert(fields.take(DEFAULT_FIELD_COUNT as int) =~= fields);
    config
}

} // verus!
