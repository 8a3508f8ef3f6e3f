use vstd::prelude::*;

use crate::text::same_text;
use zed_extension_api::serde_json;

verus! {

/// A JSON number: serde_json's number together with the text serde_json
/// prints for it. Only reading JSON text and [`JsonNumber::from_u64`] make
/// one, so the text always belongs to the number.
#[derive(Debug, PartialEq)]
pub struct JsonNumber {
    text: String,
    value: serde_json::Number,
}

impl View for JsonNumber {
    type V = Seq<char>;

    /// The text serde_json prints for the number.
    closed spec fn view(&self) -> Seq<char> {
        self.text@
    }
}

/// serde_json's number.
#[verifier::external_type_specification]
#[verifier::external_body]
pub struct ExJsonNumber(serde_json::Number);

/// The decimal digits of `n`, without leading zeros ("0" for zero).
pub open spec fn decimal_text(n: nat) -> Seq<char>
    decreases n,
{
    if n < 10 {
        seq![decimal_digit(n)]
    } else {
        decimal_text(n / 10).push(decimal_digit(n % 10))
    }
}

/// The character of a digit below ten.
pub open spec fn decimal_digit(d: nat) -> char {
    if d == 0 { '0' } else if d == 1 { '1' } else if d == 2 { '2' } else if d == 3 { '3' }
    else if d == 4 { '4' } else if d == 5 { '5' } else if d == 6 { '6' } else if d == 7 { '7' }
    else if d == 8 { '8' } else { '9' }
}

/// A non-negative integer as a JSON number: `serde_json::Number::from` of
/// the integer, whose text (serde_json's `Display`, by `itoa`) is the decimal
/// digits of the integer.
#[verifier::external_body]
fn number_from_u64(n: u64) -> (r: JsonNumber)
    ensures
        r@ == decimal_text(n as nat),
{
    let value = serde_json::Number::from(n);
    JsonNumber { text: value.to_string(), value }
}

impl JsonNumber {
    /// The JSON number of a non-negative integer.
    pub fn from_u64(n: u64) -> (r: JsonNumber)
        ensures
            r@ == decimal_text(n as nat),
    {
        number_from_u64(n)
    }
}

/// A JSON document as the debug adapter configuration holds it.
///
/// An object keeps its entries in order; looking a key up gives the value of
/// the first entry with that key.
#[derive(Debug, PartialEq)]
pub enum Json {
    Null,
    Bool(bool),
    Number(JsonNumber),
    Str(String),
    Array(Vec<Json>),
    Object(Vec<(String, Json)>),
}

/// The mathematical value of a [`Json`] document.
pub enum JsonView {
    Null,
    Bool(bool),
    Number(Seq<char>),
    Str(Seq<char>),
    Array(Seq<JsonView>),
    Object(Seq<(Seq<char>, JsonView)>),
}

/// The value that a document denotes.
pub open spec fn json_view(j: Json) -> JsonView
    decreases j,
{
    match j {
        Json::Null => JsonView::Null,
        Json::Bool(b) => JsonView::Bool(b),
        Json::Number(n) => JsonView::Number(n@),
        Json::Str(s) => JsonView::Str(s@),
        Json::Array(items) => JsonView::Array(
            Seq::new(
                items@.len(),
                |i: int|
                    if 0 <= i < items@.len() {
                        json_view(items@[i])
                    } else {
                        JsonView::Null
                    },
            ),
        ),
        Json::Object(entries) => JsonView::Object(
            Seq::new(
                entries@.len(),
                |i: int|
                    if 0 <= i < entries@.len() {
                        (entries@[i].0@, json_view(entries@[i].1))
                    } else {
                        (Seq::empty(), JsonView::Null)
                    },
            ),
        ),
    }
}

impl View for Json {
    type V = JsonView;

    open spec fn view(&self) -> JsonView {
        json_view(*self)
    }
}

/// The entries of an object, each key and value taken by its view.
pub open spec fn entries_view(entries: Seq<(String, Json)>) -> Seq<(Seq<char>, JsonView)> {
    Seq::new(entries.len(), |i: int| (entries[i].0@, json_view(entries[i].1)))
}

/// The items of an array, each taken by its view.
pub open spec fn items_view(items: Seq<Json>) -> Seq<JsonView> {
    Seq::new(items.len(), |i: int| json_view(items[i]))
}

/// An object's view is the view of its entries.
pub proof fn lemma_object_view(entries: Vec<(String, Json)>)
    ensures
        json_view(Json::Object(entries)) == JsonView::Object(entries_view(entries@)),
{
    if let JsonView::Object(es) = json_view(Json::Object(entries)) {
        assert(es =~= entries_view(entries@));
    }
}

/// Position of the first entry of `entries` whose key is `key`; the number of
/// entries when no entry has that key.
pub open spec fn key_index(entries: Seq<(Seq<char>, JsonView)>, key: Seq<char>) -> int
    decreases entries.len(),
{
    if entries.len() == 0 {
        0
    } else if entries[0].0 == key {
        0
    } else {
        1 + key_index(entries.drop_first(), key)
    }
}

/// `key_index` points at the first entry with the key, or past the end.
pub proof fn lemma_key_index(entries: Seq<(Seq<char>, JsonView)>, key: Seq<char>)
    ensures
        0 <= key_index(entries, key) <= entries.len(),
        forall|j: int| 0 <= j < key_index(entries, key) ==> entries[j].0 != key,
        key_index(entries, key) < entries.len() ==> entries[key_index(entries, key)].0 == key,
    decreases entries.len(),
{
    if entries.len() > 0 && entries[0].0 != key {
        let rest = entries.drop_first();
        lemma_key_index(rest, key);
        assert forall|j: int| 0 <= j < key_index(entries, key) implies entries[j].0 != key by {
            if j > 0 {
                assert(entries[j] == rest[j - 1]);
            }
        }
    }
}

/// A position before which no entry has `key`, and at which an entry has it
/// (or which is the end), is `key_index`.
pub proof fn lemma_key_index_is(entries: Seq<(Seq<char>, JsonView)>, key: Seq<char>, i: int)
    requires
        0 <= i <= entries.len(),
        forall|j: int| 0 <= j < i ==> entries[j].0 != key,
        i < entries.len() ==> entries[i].0 == key,
    ensures
        key_index(entries, key) == i,
{
    lemma_key_index(entries, key);
}

/// The value that `entries` give for `key`: that of the first entry with it.
pub open spec fn entries_get(entries: Seq<(Seq<char>, JsonView)>, key: Seq<char>) -> Option<JsonView> {
    let i = key_index(entries, key);
    if i < entries.len() {
        Some(entries[i].1)
    } else {
        None
    }
}

/// `entries` with `(key, value)` added at the end when no entry has `key`.
pub open spec fn entries_or_insert(
    entries: Seq<(Seq<char>, JsonView)>,
    key: Seq<char>,
    value: JsonView,
) -> Seq<(Seq<char>, JsonView)> {
    if key_index(entries, key) < entries.len() {
        entries
    } else {
        entries.push((key, value))
    }
}

/// `entries` where the first entry with `key` now holds `value`, or with
/// `(key, value)` added at the end when no entry has `key`.
pub open spec fn entries_set(
    entries: Seq<(Seq<char>, JsonView)>,
    key: Seq<char>,
    value: JsonView,
) -> Seq<(Seq<char>, JsonView)> {
    let i = key_index(entries, key);
    if i < entries.len() {
        entries.update(i, (key, value))
    } else {
        entries.push((key, value))
    }
}

/// Looking a key up in entries with one more entry at the end: an earlier
/// entry with the key wins, else the new entry answers for its own key.
pub proof fn lemma_get_push(
    entries: Seq<(Seq<char>, JsonView)>,
    key: Seq<char>,
    value: JsonView,
    k: Seq<char>,
)
    ensures
        entries_get(entries.push((key, value)), k) == if entries_get(entries, k) is Some {
            entries_get(entries, k)
        } else if k == key {
            Some(value)
        } else {
            None
        },
{
    lemma_key_index(entries, k);
    let longer = entries.push((key, value));
    let i = key_index(entries, k);
    if i < entries.len() {
        lemma_key_index_is(longer, k, i);
    } else if k == key {
        lemma_key_index_is(longer, k, entries.len() as int);
    } else {
        lemma_key_index_is(longer, k, entries.len() + 1int);
    }
}

/// After setting `key`, looking `key` up gives the new value and looking up
/// any other key gives what it gave before.
pub proof fn lemma_get_set(
    entries: Seq<(Seq<char>, JsonView)>,
    key: Seq<char>,
    value: JsonView,
    k: Seq<char>,
)
    ensures
        entries_get(entries_set(entries, key, value), k) == if k == key {
            Some(value)
        } else {
            entries_get(entries, k)
        },
{
    lemma_key_index(entries, key);
    lemma_key_index(entries, k);
    let i = key_index(entries, key);
    if i < entries.len() {
        let updated = entries.update(i, (key, value));
        if k == key {
            lemma_key_index_is(updated, k, i);
        } else {
            let j = key_index(entries, k);
            assert forall|m: int| 0 <= m < j implies updated[m].0 != k by {
                if m != i {
                    assert(updated[m] == entries[m]);
                }
            }
            lemma_key_index_is(updated, k, j);
        }
    } else {
        lemma_get_push(entries, key, value, k);
    }
}

impl JsonView {
    /// The value of field `key` of an object; nothing for any other value.
    pub open spec fn get(self, key: Seq<char>) -> Option<JsonView> {
        match self {
            JsonView::Object(entries) => entries_get(entries, key),
            _ => None,
        }
    }

    /// An object with field `key` added, holding `value`, unless it has that
    /// field already; any other value as it is.
    pub open spec fn or_insert(self, key: Seq<char>, value: JsonView) -> JsonView {
        match self {
            JsonView::Object(entries) => JsonView::Object(entries_or_insert(entries, key, value)),
            _ => self,
        }
    }

    /// An object whose field `key` holds `value`, whether it had that field
    /// or not; any other value as it is.
    pub open spec fn set(self, key: Seq<char>, value: JsonView) -> JsonView {
        match self {
            JsonView::Object(entries) => JsonView::Object(entries_set(entries, key, value)),
            _ => self,
        }
    }
}

/// Filling in a field of an object keeps it an object; a field it had keeps
/// its value, the field filled in gets `value`, and no other field appears.
pub proof fn lemma_or_insert_get(config: JsonView, key: Seq<char>, value: JsonView, k: Seq<char>)
    requires
        config is Object,
    ensures
        config.or_insert(key, value) is Object,
        config.or_insert(key, value).get(k) == if config.get(k) is Some {
            config.get(k)
        } else if k == key {
            Some(value)
        } else {
            None
        },
{
    if let JsonView::Object(entries) = config {
        lemma_key_index(entries, key);
        if key_index(entries, key) >= entries.len() {
            lemma_get_push(entries, key, value, k);
        } else if k == key {
            lemma_key_index(entries, k);
        }
    }
}

/// Setting a field of an object keeps it an object; the field gets `value`
/// and every other field keeps its value.
pub proof fn lemma_set_get(config: JsonView, key: Seq<char>, value: JsonView, k: Seq<char>)
    requires
        config is Object,
    ensures
        config.set(key, value) is Object,
        config.set(key, value).get(k) == if k == key {
            Some(value)
        } else {
            config.get(k)
        },
{
    if let JsonView::Object(entries) = config {
        lemma_get_set(entries, key, value, k);
    }
}

/// No two entries of `entries` have the same key.
pub open spec fn keys_distinct(entries: Seq<(Seq<char>, JsonView)>) -> bool {
    forall|i: int, j: int| 0 <= i < j < entries.len() ==> entries[i].0 != entries[j].0
}

/// Every object in the document, at any depth, has each key at most once, as
/// in a JSON map.
pub open spec fn json_well_formed(j: JsonView) -> bool
    decreases j,
{
    match j {
        JsonView::Array(items) => forall|i: int|
            0 <= i < items.len() ==> json_well_formed(#[trigger] items[i]),
        JsonView::Object(entries) => keys_distinct(entries) && forall|i: int|
            0 <= i < entries.len() ==> json_well_formed(#[trigger] entries[i].1),
        _ => true,
    }
}

/// Whether the text is an integer as serde_json prints one: digits, with a
/// minus sign in front for a negative one.
pub open spec fn integer_text(t: Seq<char>) -> bool {
    &&& t.len() > 0
    &&& forall|i: int|
        0 <= i < t.len() ==> (('0' <= #[trigger] t[i] && t[i] <= '9') || (i == 0 && t[i] == '-'))
}

/// Whether every number in the document is an integer.
pub open spec fn json_integral(j: JsonView) -> bool
    decreases j,
{
    match j {
        JsonView::Number(t) => integer_text(t),
        JsonView::Array(items) => forall|i: int|
            0 <= i < items.len() ==> json_integral(#[trigger] items[i]),
        JsonView::Object(entries) => forall|i: int|
            0 <= i < entries.len() ==> json_integral(#[trigger] entries[i].1),
        _ => true,
    }
}

/// Whether arrays and objects nest at most `depth` deep in the document.
pub open spec fn json_depth_at_most(j: JsonView, depth: nat) -> bool
    decreases j,
{
    match j {
        JsonView::Array(items) => depth >= 1 && forall|i: int|
            0 <= i < items.len() ==> json_depth_at_most(#[trigger] items[i], (depth - 1) as nat),
        JsonView::Object(entries) => depth >= 1 && forall|i: int|
            0 <= i < entries.len() ==> json_depth_at_most(
                #[trigger] entries[i].1,
                (depth - 1) as nat,
            ),
        _ => true,
    }
}

/// The deepest nesting of arrays and objects that serde_json reads.
pub open spec fn max_read_depth() -> nat {
    127
}

/// Whether two documents are the same JSON value: an object is taken as a
/// map, so the order of its entries does not matter.
pub open spec fn json_equiv(a: JsonView, b: JsonView) -> bool
    decreases a,
{
    match (a, b) {
        (JsonView::Null, JsonView::Null) => true,
        (JsonView::Bool(x), JsonView::Bool(y)) => x == y,
        (JsonView::Number(x), JsonView::Number(y)) => x == y,
        (JsonView::Str(x), JsonView::Str(y)) => x == y,
        (JsonView::Array(xs), JsonView::Array(ys)) => xs.len() == ys.len() && forall|i: int|
            0 <= i < xs.len() ==> json_equiv(#[trigger] xs[i], ys[i]),
        (JsonView::Object(xs), JsonView::Object(ys)) => {
            &&& forall|i: int|
                0 <= i < xs.len() ==> exists|j: int|
                    0 <= j < ys.len() && ys[j].0 == (#[trigger] xs[i]).0 && json_equiv(
                        xs[i].1,
                        ys[j].1,
                    )
            &&& forall|j: int|
                0 <= j < ys.len() ==> exists|i: int|
                    0 <= i < xs.len() && (#[trigger] ys[j]).0 == xs[i].0
        },
        _ => false,
    }
}

/// Whether a document reads back from its printed text as the same JSON
/// value: it has distinct keys, integers only, and nesting serde_json reads.
pub open spec fn reads_back(j: JsonView) -> bool {
    &&& json_well_formed(j)
    &&& json_integral(j)
    &&& json_depth_at_most(j, max_read_depth())
}

/// The document that serde_json reads from `text`; nothing when the text is
/// not JSON.
pub uninterp spec fn json_text_value(text: Seq<char>) -> Option<JsonView>;

/// The message of serde_json's error for `text` when it is not JSON.
pub uninterp spec fn json_parse_error(text: Seq<char>) -> Seq<char>;

/// The compact text that serde_json prints for a document.
pub uninterp spec fn printed_json(j: JsonView) -> Seq<char>;

/// serde_json's dynamically typed JSON value.
#[verifier::external_type_specification]
#[verifier::external_body]
pub struct ExJsonValue(serde_json::Value);

/// Turns a serde_json value into a document, variant for variant: a number
/// with the text serde_json prints for it, an object by its entries in the
/// map's order.
#[verifier::external_body]
fn value_into_json(value: serde_json::Value) -> Json {
    match value {
        serde_json::Value::Null => Json::Null,
        serde_json::Value::Bool(b) => Json::Bool(b),
        serde_json::Value::Number(n) => Json::Number(JsonNumber { text: n.to_string(), value: n }),
        serde_json::Value::String(s) => Json::Str(s),
        serde_json::Value::Array(items) => Json::Array(items.into_iter().map(value_into_json).collect()),
        serde_json::Value::Object(map) => Json::Object(map.into_iter().map(|(k, v)| (k, value_into_json(v))).collect()),
    }
}

/// Turns a document into a serde_json value, variant for variant: a number
/// as the serde_json number it holds, an object by inserting its entries
/// into a map.
#[verifier::external_body]
fn json_into_value(json: &Json) -> serde_json::Value {
    match json {
        Json::Null => serde_json::Value::Null,
        Json::Bool(b) => serde_json::Value::Bool(*b),
        Json::Number(n) => serde_json::Value::Number(n.value.clone()),
        Json::Str(s) => serde_json::Value::String(s.clone()),
        Json::Array(items) => serde_json::Value::Array(items.iter().map(json_into_value).collect()),
        Json::Object(es) => serde_json::Value::Object(es.iter().map(|(k, v)| (k.clone(), json_into_value(v))).collect()),
    }
}

/// Reads a JSON text: `serde_json::from_str` into a `serde_json::Value`,
/// converted variant for variant. The contract claims that the result is the
/// document the text denotes (named, not spelled out); that its objects have
/// distinct keys (a serde_json map holds each key once); that arrays and
/// objects nest at most 127 deep (serde_json's recursion limit: a 128th level
/// is refused); and that a failure carries serde_json's message.
#[verifier::external_body]
pub(crate) fn parse_json_text(text: &str) -> (r: Result<Json, String>)
    ensures
        r is Ok <==> json_text_value(text@) is Some,
        r matches Ok(j) ==> {
            &&& json_text_value(text@) == Some(j@)
            &&& json_well_formed(j@)
            &&& json_depth_at_most(j@, max_read_depth())
        },
        r matches Err(e) ==> e@ == json_parse_error(text@),
{
    match serde_json::from_str::<serde_json::Value>(text) {
        Ok(value) => Ok(value_into_json(value)),
        Err(e) => Err(e.to_string()),
    }
}

/// Prints a document: converted variant for variant into a
/// `serde_json::Value` and printed compactly by its `Display`, which is
/// `serde_json::to_string` and cannot fail for a value.
///
/// The contract claims:
/// - the text is the named printing of the document;
/// - printing depends on an object's entries as a map only, as serde_json's
///   map orders its keys itself, so documents that are the same JSON value
///   print alike;
/// - a document with distinct keys, integers only, and nesting serde_json
///   reads reads back from its text as the same JSON value, again with
///   distinct keys, integers only and the same nesting bound. Floating-point
///   numbers are left out: serde_json's default reading of them is
///   best-effort (de.rs, `f64_from_parts`), so the printed digits need not
///   read back to the same number, and can even be refused.
#[verifier::external_body]
pub(crate) fn print_json(json: &Json) -> (r: String)
    ensures
        r@ == printed_json(json@),
        forall|other: JsonView|
            json_well_formed(json@) && json_well_formed(other) && #[trigger] json_equiv(
                json@,
                other,
            ) ==> printed_json(other) == r@,
        reads_back(json@) ==> json_text_value(r@) is Some,
        reads_back(json@) ==> json_equiv(json@, json_text_value(r@)->0),
        reads_back(json@) ==> reads_back(json_text_value(r@)->0),
{
    json_into_value(json).to_string()
}

/// Filling in a field keeps every object's keys distinct.
pub proof fn lemma_or_insert_well_formed(config: JsonView, key: Seq<char>, value: JsonView)
    requires
        json_well_formed(config),
        json_well_formed(value),
    ensures
        json_well_formed(config.or_insert(key, value)),
{
    if let JsonView::Object(entries) = config {
        lemma_key_index(entries, key);
        if key_index(entries, key) >= entries.len() {
            let longer = entries.push((key, value));
            assert forall|i: int, j: int| 0 <= i < j < longer.len() implies longer[i].0 != longer[j].0 by {
                if j == entries.len() {
                    assert(entries[i].0 != key);
                } else {
                    assert(entries[i].0 != entries[j].0);
                }
            }
            assert forall|i: int| 0 <= i < longer.len() implies json_well_formed(#[trigger] longer[i].1) by {
                if i < entries.len() {
                    assert(json_well_formed(entries[i].1));
                }
            }
        }
    }
}

/// Setting a field keeps every object's keys distinct.
pub proof fn lemma_set_well_formed(config: JsonView, key: Seq<char>, value: JsonView)
    requires
        json_well_formed(config),
        json_well_formed(value),
    ensures
        json_well_formed(config.set(key, value)),
{
    if let JsonView::Object(entries) = config {
        lemma_key_index(entries, key);
        let k = key_index(entries, key);
        if k < entries.len() {
            let updated = entries.update(k, (key, value));
            assert forall|i: int, j: int| 0 <= i < j < updated.len() implies updated[i].0 != updated[j].0 by {
                assert(updated[i].0 == entries[i].0);
                assert(updated[j].0 == entries[j].0);
            }
            assert forall|i: int| 0 <= i < updated.len() implies json_well_formed(#[trigger] updated[i].1) by {
                if i != k {
                    assert(json_well_formed(entries[i].1));
                }
            }
        } else {
            lemma_or_insert_well_formed(config, key, value);
            assert(config.set(key, value) == config.or_insert(key, value));
        }
    }
}

/// Two equivalent objects, the second with distinct keys: a field of the
/// first is a field of the second, with an equivalent value.
pub proof fn lemma_equiv_get(a: JsonView, b: JsonView, k: Seq<char>)
    requires
        json_equiv(a, b),
        json_well_formed(b),
        a.get(k) is Some,
    ensures
        b.get(k) is Some,
        json_equiv(a.get(k)->0, b.get(k)->0),
{
    if let (JsonView::Object(xs), JsonView::Object(ys)) = (a, b) {
        lemma_key_index(xs, k);
        let i = key_index(xs, k);
        assert(0 <= i < xs.len());
        let j = choose|j: int|
            0 <= j < ys.len() && ys[j].0 == xs[i].0 && json_equiv(xs[i].1, ys[j].1);
        assert forall|m: int| 0 <= m < j implies ys[m].0 != k by {
            assert(ys[m].0 != ys[j].0);
        }
        lemma_key_index_is(ys, k, j);
    }
}

/// A value equivalent to a string is that string.
pub proof fn lemma_equiv_str(s: Seq<char>, b: JsonView)
    requires
        json_equiv(JsonView::Str(s), b),
    ensures
        b == JsonView::Str(s),
{
}

/// A value equivalent to null, a boolean or a string is that same value.
pub proof fn lemma_equiv_scalar(a: JsonView, b: JsonView)
    requires
        json_equiv(a, b),
        a is Null || a is Bool || a is Str,
    ensures
        b == a,
{
}

/// A field of a document with distinct keys has distinct keys itself.
pub proof fn lemma_get_well_formed(config: JsonView, k: Seq<char>)
    requires
        json_well_formed(config),
        config.get(k) is Some,
    ensures
        json_well_formed(config.get(k)->0),
{
    if let JsonView::Object(entries) = config {
        lemma_key_index(entries, k);
        let i = key_index(entries, k);
        assert(json_well_formed(entries[i].1));
    }
}

/// Setting a field to the value it has already changes nothing.
pub proof fn lemma_set_same(config: JsonView, key: Seq<char>, value: JsonView)
    requires
        config.get(key) == Some(value),
    ensures
        config.set(key, value) == config,
{
    if let JsonView::Object(entries) = config {
        lemma_key_index(entries, key);
        let i = key_index(entries, key);
        assert(entries.update(i, (key, value)) =~= entries);
    }
}

/// Filling in or setting a field with an integral value keeps a document
/// integral.
pub proof fn lemma_update_integral(config: JsonView, key: Seq<char>, value: JsonView)
    requires
        json_integral(config),
        json_integral(value),
    ensures
        json_integral(config.or_insert(key, value)),
        json_integral(config.set(key, value)),
{
    if let JsonView::Object(entries) = config {
        lemma_key_index(entries, key);
        let k = key_index(entries, key);
        let longer = entries.push((key, value));
        assert forall|i: int| 0 <= i < longer.len() implies json_integral(#[trigger] longer[i].1) by {
            if i < entries.len() {
                assert(json_integral(entries[i].1));
            }
        }
        if k < entries.len() {
            let updated = entries.update(k, (key, value));
            assert forall|i: int| 0 <= i < updated.len() implies json_integral(#[trigger] updated[i].1) by {
                if i != k {
                    assert(json_integral(entries[i].1));
                }
            }
        }
    }
}

/// Filling in or setting a field with a value nested less deep than the
/// bound keeps the document within the bound.
pub proof fn lemma_update_depth(config: JsonView, key: Seq<char>, value: JsonView, depth: nat)
    requires
        json_depth_at_most(config, depth),
        depth >= 1,
        json_depth_at_most(value, (depth - 1) as nat),
    ensures
        json_depth_at_most(config.or_insert(key, value), depth),
        json_depth_at_most(config.set(key, value), depth),
{
    if let JsonView::Object(entries) = config {
        lemma_key_index(entries, key);
        let k = key_index(entries, key);
        let longer = entries.push((key, value));
        assert forall|i: int| 0 <= i < longer.len() implies json_depth_at_most(
            #[trigger] longer[i].1,
            (depth - 1) as nat,
        ) by {
            if i < entries.len() {
                assert(json_depth_at_most(entries[i].1, (depth - 1) as nat));
            }
        }
        if k < entries.len() {
            let updated = entries.update(k, (key, value));
            assert forall|i: int| 0 <= i < updated.len() implies json_depth_at_most(
                #[trigger] updated[i].1,
                (depth - 1) as nat,
            ) by {
                if i != k {
                    assert(json_depth_at_most(entries[i].1, (depth - 1) as nat));
                }
            }
        }
    }
}

/// Position of the first entry of `entries` with `key`, or their number.
fn find_key(entries: &Vec<(String, Json)>, key: &str) -> (r: usize)
    ensures
        r as int == key_index(entries_view(entries@), key@),
        r <= entries@.len(),
{
    let ghost es = entries_view(entries@);
    let mut i: usize = 0;
    while i < entries.len()
        invariant
            es == entries_view(entries@),
            i <= entries.len(),
            forall|j: int| 0 <= j < i ==> es[j].0 != key@,
        decreases entries.len() - i,
    {
        if same_text(entries[i].0.as_str(), key) {
            proof {
                lemma_key_index_is(es, key@, i as int);
            }
            return i;
        }
        i = i + 1;
    }
    proof {
        lemma_key_index_is(es, key@, i as int);
    }
    i
}

impl Json {
    /// An object made of `entries`, kept in their order.
    pub fn object(entries: Vec<(String, Json)>) -> (r: Json)
        ensures
            r@ == JsonView::Object(entries_view(entries@)),
    {
        proof {
            lemma_object_view(entries);
        }
        Json::Object(entries)
    }

    /// An array made of `items`, kept in their order.
    pub fn array(items: Vec<Json>) -> (r: Json)
        ensures
            r@ == JsonView::Array(items_view(items@)),
    {
        let r = Json::Array(items);
        assert(r@ matches JsonView::Array(views) && views =~= items_view(items@));
        r
    }

    /// The value of field `key` when this is an object that has it.
    pub fn get(&self, key: &str) -> (r: Option<&Json>)
        ensures
            match r {
                Some(v) => self@.get(key@) == Some(v@),
                None => self@.get(key@) is None,
            },
    {
        match self {
            Json::Object(entries) => {
                proof {
                    lemma_object_view(*entries);
                }
                let i = find_key(entries, key);
                if i < entries.len() {
                    Some(&entries[i].1)
                } else {
                    None
                }
            },
            _ => None,
        }
    }

    /// The text of a string value; nothing for any other value.
    pub fn as_str(&self) -> (r: Option<&str>)
        ensures
            match r {
                Some(s) => self@ == JsonView::Str(s@),
                None => !(self@ is Str),
            },
    {
        match self {
            Json::Str(s) => Some(s.as_str()),
            _ => None,
        }
    }

    /// This object with field `key` added, holding `value`, unless the field
    /// is there already; any other value as it is.
    pub fn or_insert(self, key: String, value: Json) -> (r: Json)
        ensures
            r@ == self@.or_insert(key@, value@),
    {
        match self {
            Json::Object(mut entries) => {
                let ghost before = entries@;
                proof {
                    lemma_object_view(entries);
                }
                let i = find_key(&entries, key.as_str());
                if i == entries.len() {
                    let ghost item = (key, value);
                    entries.push((key, value));
                    assert(entries_view(entries@) =~= entries_view(before).push(
                        (item.0@, json_view(item.1)),
                    ));
                }
                proof {
                    lemma_object_view(entries);
                }
                Json::Object(entries)
            },
            other => other,
        }
    }

    /// This object with field `key` holding `value`, replacing the value of
    /// the field's first entry or adding the field; any other value as it is.
    pub fn set(self, key: String, value: Json) -> (r: Json)
        ensures
            r@ == self@.set(key@, value@),
    {
        match self {
            Json::Object(mut entries) => {
                let ghost before = entries@;
                proof {
                    lemma_object_view(entries);
                }
                let i = find_key(&entries, key.as_str());
                let ghost item = (key, value);
                if i < entries.len() {
                    entries[i] = (key, value);
                    assert(entries_view(entries@) =~= entries_view(before).update(
                        i as int,
                        (item.0@, json_view(item.1)),
                    ));
                } else {
                    entries.push((key, value));
                    assert(entries_view(entries@) =~= entries_view(before).push(
                        (item.0@, json_view(item.1)),
                    ));
                }
                proof {
                    lemma_object_view(entries);
                }
                Json::Object(entries)
            },
            other => other,
        }
    }
}

} // verus!
