use vstd::prelude::*;

use crate::text::{chars_of, seq_lt, string_of};

verus! {

/// A JSON document as plain values.  Numbers are carried through as
/// `serde_json` holds them; object members are in the order of
/// `serde_json`'s map (sorted by key).
#[derive(Debug)]
pub enum Json {
    Null,
    Bool(bool),
    Number(serde_json::Number),
    Text(String),
    Array(Vec<Json>),
    Object(Vec<(String, Json)>),
}

#[verifier::external_type_specification]
#[verifier::external_body]
pub struct ExJsonValue(serde_json::Value);

#[verifier::external_type_specification]
#[verifier::external_body]
pub struct ExJsonNumber(serde_json::Number);

/// The abstract value of a JSON document: texts as character sequences,
/// numbers as `serde_json` holds them.
#[verifier::ext_equal]
pub enum JsonView {
    Null,
    Bool(bool),
    Number(serde_json::Number),
    Text(Seq<char>),
    Array(Seq<JsonView>),
    Object(Seq<(Seq<char>, JsonView)>),
}

pub open spec fn json_view(doc: Json) -> JsonView
    decreases doc,
{
    match doc {
        Json::Null => JsonView::Null,
        Json::Bool(b) => JsonView::Bool(b),
        Json::Number(n) => JsonView::Number(n),
        Json::Text(s) => JsonView::Text(s@),
        Json::Array(items) => JsonView::Array(
            Seq::new(
                items@.len(),
                |i: int|
                    if 0 <= i < items@.len() {
                        json_view(items@[i])
                    } else {
                        JsonView::Null
                    },
            ),
        ),
        Json::Object(fields) => JsonView::Object(
            Seq::new(
                fields@.len(),
                |i: int|
                    if 0 <= i < fields@.len() {
                        (fields@[i].0@, json_view(fields@[i].1))
                    } else {
                        (Seq::empty(), JsonView::Null)
                    },
            ),
        ),
    }
}

impl View for Json {
    type V = JsonView;

    open spec fn view(&self) -> JsonView {
        json_view(*self)
    }
}

/// `doc` nests arrays and objects at most `levels` deep, and the keys of
/// each of its objects are in strictly increasing order.
pub open spec fn json_sorted(doc: JsonView, levels: nat) -> bool
    decreases levels,
{
    match doc {
        JsonView::Array(items) => levels > 0 && (forall|i: int|
            0 <= i < items.len() ==> json_sorted(#[trigger] items[i], (levels - 1) as nat)),
        JsonView::Object(fields) => levels > 0 && (forall|i: int, j: int|
            0 <= i < j < fields.len() ==> seq_lt(#[trigger] fields[i].0, #[trigger] fields[j].0))
            && (forall|i: int|
            0 <= i < fields.len() ==> json_sorted(#[trigger] fields[i].1, (levels - 1) as nat)),
        _ => true,
    }
}

/// `a` and `b` agree within `levels` levels of nesting on everything but
/// numbers: the same kind of value, the same booleans and texts, arrays of
/// the same length with alike items, objects with the same keys in the
/// same order and alike values.
pub open spec fn json_alike(a: JsonView, b: JsonView, levels: nat) -> bool
    decreases levels,
{
    match (a, b) {
        (JsonView::Null, JsonView::Null) => true,
        (JsonView::Bool(x), JsonView::Bool(y)) => x == y,
        (JsonView::Number(_), JsonView::Number(_)) => true,
        (JsonView::Text(x), JsonView::Text(y)) => x == y,
        (JsonView::Array(xs), JsonView::Array(ys)) => levels > 0 && xs.len() == ys.len() && (
        forall|i: int|
            0 <= i < xs.len() ==> json_alike(#[trigger] xs[i], ys[i], (levels - 1) as nat)),
        (JsonView::Object(xs), JsonView::Object(ys)) => levels > 0 && xs.len() == ys.len() && (
        forall|i: int|
            0 <= i < xs.len() ==> (#[trigger] xs[i]).0 == ys[i].0 && json_alike(
                xs[i].1,
                ys[i].1,
                (levels - 1) as nat,
            )),
        _ => false,
    }
}

/// What `serde_json::from_str::<serde_json::Value>` makes of a text: the
/// document, or the message of its error.
pub uninterp spec fn json_parse_of(text: Seq<char>) -> Result<JsonView, Seq<char>>;

/// What `serde_json::to_string` makes of a document.
pub uninterp spec fn json_compact_of(doc: JsonView) -> Result<Seq<char>, Seq<char>>;

/// What `serde_json::to_string_pretty` makes of a document.
pub uninterp spec fn json_pretty_of(doc: JsonView) -> Result<Seq<char>, Seq<char>>;

/// `text` parses to a document alike `doc` (see `json_alike`).
pub open spec fn json_reads_back(text: Seq<char>, doc: JsonView) -> bool {
    match json_parse_of(text) {
        Ok(back) => json_alike(back, doc, 127),
        Err(_) => false,
    }
}

/// The view of a result of texts.
pub open spec fn text_result(r: Result<String, String>) -> Result<Seq<char>, Seq<char>> {
    match r {
        Ok(t) => Ok(t@),
        Err(e) => Err(e@),
    }
}

/// Carries a `serde_json::Value` over into `Json`, variant by variant
/// (the conversion of `parse_json`'s result, apart because it recurses).
#[verifier::external_body]
fn json_from_value(v: serde_json::Value) -> Json {
    match v {
        serde_json::Value::Null => Json::Null,
        serde_json::Value::Bool(b) => Json::Bool(b),
        serde_json::Value::Number(n) => Json::Number(n),
        serde_json::Value::String(s) => Json::Text(s),
        serde_json::Value::Array(a) => Json::Array(a.into_iter().map(json_from_value).collect()),
        serde_json::Value::Object(m) => Json::Object(
            m.into_iter().map(|(k, v)| (k, json_from_value(v))).collect(),
        ),
    }
}

/// Carries a `Json` back into a `serde_json::Value`, variant by variant
/// (the conversion of the argument of `to_json_text` and
/// `to_json_text_pretty`, apart because it recurses).
#[verifier::external_body]
fn json_into_value(doc: &Json) -> serde_json::Value {
    match doc {
        Json::Null => serde_json::Value::Null,
        Json::Bool(b) => serde_json::Value::Bool(*b),
        Json::Number(n) => serde_json::Value::Number(n.clone()),
        Json::Text(s) => serde_json::Value::String(s.clone()),
        Json::Array(a) => serde_json::Value::Array(a.iter().map(json_into_value).collect()),
        Json::Object(m) => serde_json::Value::Object(
            m.iter().map(|(k, v)| (k.clone(), json_into_value(v))).collect(),
        ),
    }
}

/// `serde_json::from_str` into a `serde_json::Value`, carried over into
/// `Json`; the error is rendered by its `Display`.  Which document or error
/// a text gives is left to the named function.  `serde_json` reads at most
/// 127 nested arrays and objects (its recursion limit of 128 counts down
/// before each one and fails at zero), and its `Map` (a `BTreeMap`, as
/// the `preserve_order` feature is not enabled) holds each key once, in
/// increasing order.
#[verifier::external_body]
pub(crate) fn parse_json(text: &str) -> (res: Result<Json, String>)
    ensures
        json_parse_of(text@) == match res {
            Ok(doc) => Ok::<JsonView, Seq<char>>(doc@),
            Err(e) => Err::<JsonView, Seq<char>>(e@),
        },
        res is Ok ==> json_sorted(res->Ok_0@, 127),
{
    serde_json::from_str::<serde_json::Value>(text).map(json_from_value).map_err(|e| e.to_string())
}

/// `serde_json::to_string` of the document (as a `serde_json::Value`),
/// which cannot fail.  The text it writes reads back (see `parse_json`) as
/// a document alike the one written when that is within the recursion
/// limit with keys in increasing order: strings are escaped and read back
/// as they were, and a map's keys are written in its order.  Numbers are
/// not compared: without the `float_roundtrip` feature floats are read back
/// only approximately.
#[verifier::external_body]
pub(crate) fn to_json_text(doc: &Json) -> (res: Result<String, String>)
    ensures
        json_compact_of(doc@) == text_result(res),
        res is Ok,
        json_sorted(doc@, 127) ==> json_reads_back(res->Ok_0@, doc@),
{
    serde_json::to_string(&json_into_value(doc)).map_err(|e| e.to_string())
}

/// `serde_json::to_string_pretty` of the document (as a
/// `serde_json::Value`), which cannot fail; what it writes reads back as
/// `to_json_text`'s text does.
#[verifier::external_body]
pub(crate) fn to_json_text_pretty(doc: &Json) -> (res: Result<String, String>)
    ensures
        json_pretty_of(doc@) == text_result(res),
        res is Ok,
        json_sorted(doc@, 127) ==> json_reads_back(res->Ok_0@, doc@),
{
    serde_json::to_string_pretty(&json_into_value(doc)).map_err(|e| e.to_string())
}

/// The index of the first member of `fields` named `key`.
pub open spec fn member_index(fields: Seq<(Seq<char>, JsonView)>, key: Seq<char>) -> Option<int>
    decreases fields.len(),
{
    if fields.len() == 0 {
        None
    } else {
        match member_index(fields.drop_last(), key) {
            Some(i) => Some(i),
            None => if fields.last().0 == key {
                Some(fields.len() - 1)
            } else {
                None
            },
        }
    }
}

/// `serde_json::Value::get` with a key: the member named `key` of an
/// object, nothing for anything else.
pub open spec fn json_member(doc: JsonView, key: Seq<char>) -> Option<JsonView> {
    match doc {
        JsonView::Object(fields) => match member_index(fields, key) {
            Some(i) => Some(fields[i].1),
            None => None,
        },
        _ => None,
    }
}

/// `serde_json::Value::as_str`.
pub open spec fn json_text(doc: JsonView) -> Option<Seq<char>> {
    match doc {
        JsonView::Text(s) => Some(s),
        _ => None,
    }
}

/// The text of member `key`, when it is a string.
pub open spec fn member_text(doc: JsonView, key: Seq<char>) -> Option<Seq<char>> {
    match json_member(doc, key) {
        Some(m) => json_text(m),
        None => None,
    }
}

pub proof fn lemma_member_index_at(fields: Seq<(Seq<char>, JsonView)>, key: Seq<char>, k: int)
    requires
        0 <= k < fields.len(),
        fields[k].0 == key,
        member_index(fields.take(k), key) is None,
    ensures
        member_index(fields, key) == Some(k),
    decreases fields.len(),
{
    if k == fields.len() - 1 {
        assert(fields.drop_last() =~= fields.take(k));
    } else {
        assert(fields.drop_last().take(k) =~= fields.take(k));
        lemma_member_index_at(fields.drop_last(), key, k);
    }
}

pub proof fn lemma_member_index_found(fields: Seq<(Seq<char>, JsonView)>, key: Seq<char>)
    ensures
        match member_index(fields, key) {
            Some(i) => 0 <= i < fields.len() && fields[i].0 == key,
            None => true,
        },
    decreases fields.len(),
{
    if fields.len() > 0 {
        lemma_member_index_found(fields.drop_last(), key);
    }
}

/// A sorted document within more levels is still sorted.
pub proof fn lemma_json_sorted_more_levels(doc: JsonView, n: nat, m: nat)
    requires
        json_sorted(doc, n),
        n <= m,
    ensures
        json_sorted(doc, m),
    decreases n,
{
    match doc {
        JsonView::Array(items) => {
            assert forall|i: int| 0 <= i < items.len() implies json_sorted(
                #[trigger] items[i],
                (m - 1) as nat,
            ) by {
                lemma_json_sorted_more_levels(items[i], (n - 1) as nat, (m - 1) as nat);
            }
        },
        JsonView::Object(fields) => {
            assert forall|i: int| 0 <= i < fields.len() implies json_sorted(
                #[trigger] fields[i].1,
                (m - 1) as nat,
            ) by {
                lemma_json_sorted_more_levels(fields[i].1, (n - 1) as nat, (m - 1) as nat);
            }
        },
        _ => {},
    }
}

/// The member named `key` of an object (see `json_member`).
pub fn get_member<'a>(doc: &'a Json, key: &str) -> (res: Option<&'a Json>)
    ensures
        match res {
            Some(m) => json_member(doc@, key@) == Some(m@),
            None => json_member(doc@, key@) is None,
        },
{
    match doc {
        Json::Object(fields) => {
            let ghost fv = match doc@ {
                JsonView::Object(f) => f,
                _ => Seq::empty(),
            };
            assert(fv.len() == fields@.len());
            assert(forall|j: int| 0 <= j < fields@.len() ==> #[trigger] fv[j] == (fields@[j].0@, fields@[j].1@));
            let k = chars_of(key);
            let mut i: usize = 0;
            while i < fields.len()
                invariant
                    i <= fields.len(),
                    k@ == key@,
                    fv.len() == fields@.len(),
                    forall|j: int| 0 <= j < fields@.len() ==> #[trigger] fv[j] == (fields@[j].0@, fields@[j].1@),
                    doc@ == JsonView::Object(fv),
                    member_index(fv.take(i as int), key@) is None,
                decreases fields.len() - i,
            {
                assert(fv.take(i + 1).drop_last() =~= fv.take(i as int));
                assert(fv[i as int] == (fields@[i as int].0@, fields@[i as int].1@));
                let name = chars_of(fields[i].0.as_str());
                if crate::text::chars_equal(&name, &k) {
                    proof {
                        lemma_member_index_at(fv, key@, i as int);
                    }
                    return Some(&fields[i].1);
                }
                i = i + 1;
            }
            assert(fv.take(fields.len() as int) =~= fv);
            None
        },
        _ => None,
    }
}

/// The text of member `key`, when it is a string (see `member_text`).
pub fn get_member_text(doc: &Json, key: &str) -> (res: Option<String>)
    ensures
        crate::paths::opt_seq(res) == member_text(doc@, key@),
{
    match get_member(doc, key) {
        Some(Json::Text(s)) => Some(string_of(&chars_of(s.as_str()))),
        _ => None,
    }
}

} // verus!
