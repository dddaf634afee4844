use vstd::prelude::*;

use crate::json::{
    get_member, get_member_text, json_alike, json_compact_of, json_member, json_parse_of,
    json_pretty_of, json_reads_back, json_sorted, lemma_json_sorted_more_levels,
    lemma_member_index_found, member_index, member_text, parse_json, text_result, to_json_text,
    to_json_text_pretty, Json, JsonView,
};
use crate::paths::{
    extension_of, joined, local_dir, local_dir_spec, parent_of, path_extension, path_join,
    path_parent,
};
use crate::text::{chars_of, concat_chars, seq_lt, string_of};

verus! {

// ---------------------------------------------------------------------------
// Stable file names
// ---------------------------------------------------------------------------

pub open spec fn fnv_offset() -> u64 {
    1469598103934665603
}

pub open spec fn fnv_prime() -> u64 {
    1099511628211
}

/// The 64-bit FNV-1a hash of a byte string.
pub open spec fn fnv1a(bytes: Seq<u8>) -> u64
    decreases bytes.len(),
{
    if bytes.len() == 0 {
        fnv_offset()
    } else {
        vstd::wrapping::u64_specs::wrapping_mul(
            fnv1a(bytes.drop_last()) ^ (bytes.last() as u64),
            fnv_prime(),
        )
    }
}

/// The lowercase hexadecimal digit for `d < 16`.
pub open spec fn hex_char(d: nat) -> char {
    if d < 10 {
        crate::text::digit_char(d)
    } else if d == 10 {
        'a'
    } else if d == 11 {
        'b'
    } else if d == 12 {
        'c'
    } else if d == 13 {
        'd'
    } else if d == 14 {
        'e'
    } else {
        'f'
    }
}

/// The last `n` hexadecimal digits of `h`, zero padded.
pub open spec fn hex_fixed(h: nat, n: nat) -> Seq<char>
    decreases n,
{
    if n == 0 {
        Seq::empty()
    } else {
        hex_fixed(h / 16, (n - 1) as nat).push(hex_char(h % 16))
    }
}

/// The file stem for a model path: the FNV-1a hash of its UTF-8 bytes as 16
/// lowercase hexadecimal digits.
pub open spec fn stable_stem_spec(value: Seq<char>) -> Seq<char> {
    hex_fixed(fnv1a(vstd::utf8::encode_utf8(value)) as nat, 16)
}

fn hex_char_exec(d: u64) -> (c: char)
    requires
        d < 16,
    ensures
        c == hex_char(d as nat),
{
    if d < 10 {
        crate::text::digit_exec(d as u128)
    } else if d == 10 {
        'a'
    } else if d == 11 {
        'b'
    } else if d == 12 {
        'c'
    } else if d == 13 {
        'd'
    } else if d == 14 {
        'e'
    } else {
        'f'
    }
}

fn hex_fixed_exec(h: u64, n: usize) -> (out: Vec<char>)
    ensures
        out@ == hex_fixed(h as nat, n as nat),
    decreases n,
{
    if n == 0 {
        Vec::new()
    } else {
        let mut v = hex_fixed_exec(h / 16, n - 1);
        v.push(hex_char_exec(h % 16));
        v
    }
}

/// The stable file stem for a model path (see `stable_stem_spec`).
pub fn stable_file_stem(value: &str) -> (stem: String)
    ensures
        stem@ == stable_stem_spec(value@),
{
    let bytes = value.as_bytes();
    let mut hash: u64 = 1469598103934665603;
    let mut i: usize = 0;
    while i < bytes.len()
        invariant
            i <= bytes.len(),
            hash == fnv1a(bytes@.take(i as int)),
        decreases bytes.len() - i,
    {
        assert(bytes@.take(i + 1).drop_last() =~= bytes@.take(i as int));
        hash = hash ^ (bytes[i] as u64);
        hash = hash.wrapping_mul(1099511628211);
        i = i + 1;
    }
    assert(bytes@.take(bytes.len() as int) =~= bytes@);
    string_of(&hex_fixed_exec(hash, 16))
}

/// A lowercase hexadecimal digit.
pub open spec fn is_lower_hex(c: char) -> bool {
    ('0' <= c && c <= '9') || ('a' <= c && c <= 'f')
}

proof fn lemma_hex_fixed(h: nat, n: nat)
    ensures
        hex_fixed(h, n).len() == n,
        forall|i: int| 0 <= i < n ==> is_lower_hex(#[trigger] hex_fixed(h, n)[i]),
    decreases n,
{
    if n > 0 {
        lemma_hex_fixed(h / 16, (n - 1) as nat);
        let r = hex_fixed(h / 16, (n - 1) as nat);
        assert forall|i: int| 0 <= i < n implies is_lower_hex(#[trigger] hex_fixed(h, n)[i]) by {
            if i < n - 1 {
                assert(hex_fixed(h, n)[i] == r[i]);
            }
        }
    }
}

/// The stable file stem of any model path is sixteen lowercase
/// hexadecimal digits.
pub proof fn law_stable_stem_is_sixteen_hex_digits(value: Seq<char>)
    ensures
        stable_stem_spec(value).len() == 16,
        forall|i: int| 0 <= i < 16 ==> is_lower_hex(#[trigger] stable_stem_spec(value)[i]),
{
    lemma_hex_fixed(fnv1a(vstd::utf8::encode_utf8(value)) as nat, 16);
}

// ---------------------------------------------------------------------------
// The local bounds cache
// ---------------------------------------------------------------------------

pub open spec fn local_bounds_dir_spec(manifest_dir: Seq<char>) -> Seq<char> {
    joined(local_dir_spec(manifest_dir), "bounds"@)
}

/// The directory of the local bounds cache: `local/bounds`.
pub fn local_bounds_dir(manifest_dir: &str) -> (dir: String)
    ensures
        dir@ == local_bounds_dir_spec(manifest_dir@),
{
    let local = local_dir(manifest_dir);
    path_join(local.as_str(), "bounds")
}

/// The cache file of a model: its stable stem with `.json`, in the bounds
/// directory.
pub fn local_bounds_path(manifest_dir: &str, model_path: &str) -> (path: String)
    ensures
        path@ == joined(local_bounds_dir_spec(manifest_dir@), stable_stem_spec(model_path@) + ".json"@),
{
    let dir = local_bounds_dir(manifest_dir);
    let stem = stable_file_stem(model_path);
    let name = string_of(&concat_chars(&chars_of(stem.as_str()), &chars_of(".json")));
    path_join(dir.as_str(), name.as_str())
}

/// Whether a file of the bounds directory is read as a cache file: its
/// extension is `json`.
pub fn is_bounds_cache_file(path: &str) -> (b: bool)
    ensures
        b == (extension_of(path@) == Some("json"@)),
{
    match path_extension(path) {
        Some(e) => crate::text::chars_equal(&chars_of(e.as_str()), &chars_of("json")),
        None => false,
    }
}

fn prefixed(prefix: &str, rest: &String) -> (out: String)
    ensures
        out@ == prefix@ + rest@,
{
    string_of(&concat_chars(&chars_of(prefix), &chars_of(rest.as_str())))
}

/// The document of a model's cache file: the object with the members
/// `bounds` and `modelPath`, in that order.
pub open spec fn bounds_document(bounds: JsonView, model_path: Seq<char>) -> JsonView {
    JsonView::Object(seq![("bounds"@, bounds), ("modelPath"@, JsonView::Text(model_path))])
}

/// The text of a model's cache file: the document with the parsed bounds,
/// pretty printed; parse and format errors carry the messages of
/// `serde_json`.
pub open spec fn bounds_document_text(model_path: Seq<char>, bounds_json: Seq<char>) -> Result<
    Seq<char>,
    Seq<char>,
> {
    match json_parse_of(bounds_json) {
        Err(e) => Err("Could not parse bounds JSON: "@ + e),
        Ok(bounds) => match json_pretty_of(bounds_document(bounds, model_path)) {
            Ok(t) => Ok(t),
            Err(e) => Err("Could not format bounds JSON: "@ + e),
        },
    }
}

/// Builds the text of a model's cache file (see `bounds_document_text`);
/// it fails only when the bounds are not JSON. The text reads back as the
/// document written, when the bounds are nested at most 126 levels deep.
pub fn local_bounds_document(model_path: &str, bounds_json: &str) -> (res: Result<String, String>)
    ensures
        text_result(res) == bounds_document_text(model_path@, bounds_json@),
        res is Ok <==> json_parse_of(bounds_json@) is Ok,
        res is Ok && json_sorted(json_parse_of(bounds_json@)->Ok_0, 126) ==> json_reads_back(
            res->Ok_0@,
            bounds_document(json_parse_of(bounds_json@)->Ok_0, model_path@),
        ),
{
    match parse_json(bounds_json) {
        Err(e) => Err(prefixed("Could not parse bounds JSON: ", &e)),
        Ok(bounds) => {
            let ghost b = bounds@;
            let k1 = string_of(&chars_of("bounds"));
            let k2 = string_of(&chars_of("modelPath"));
            let v2 = string_of(&chars_of(model_path));
            let mut fields: Vec<(String, Json)> = Vec::new();
            fields.push((k1, bounds));
            fields.push((k2, Json::Text(v2)));
            let doc = Json::Object(fields);
            proof {
                reveal_strlit("bounds");
                reveal_strlit("modelPath");
                let fv = doc@->Object_0;
                assert(fields@[0].0@ == "bounds"@ && fields@[0].1@ == b);
                assert(fields@[1].0@ == "modelPath"@ && fields@[1].1@ == JsonView::Text(model_path@));
                assert(fv.len() == 2);
                assert(fv[0] == ("bounds"@, b));
                assert(fv[1] == ("modelPath"@, JsonView::Text(model_path@)));
                assert(fv =~= seq![("bounds"@, b), ("modelPath"@, JsonView::Text(model_path@))]);
                assert(doc@ =~= bounds_document(b, model_path@));
                if json_sorted(b, 126) {
                    lemma_bounds_document_sorted(b, model_path@);
                }
            }
            match to_json_text_pretty(&doc) {
                Ok(t) => Ok(t),
                Err(e) => Err(prefixed("Could not format bounds JSON: ", &e)),
            }
        },
    }
}

proof fn lemma_bounds_document_sorted(bounds: JsonView, model_path: Seq<char>)
    requires
        json_sorted(bounds, 126),
    ensures
        json_sorted(bounds_document(bounds, model_path), 127),
{
    reveal_strlit("bounds");
    reveal_strlit("modelPath");
    let fields = seq![("bounds"@, bounds), ("modelPath"@, JsonView::Text(model_path))];
    assert(seq_lt("bounds"@, "modelPath"@)) by {
        assert("bounds"@[0] == 'b');
        assert("modelPath"@[0] == 'm');
    }
    assert forall|i: int, j: int| 0 <= i < j < fields.len() implies seq_lt(
        #[trigger] fields[i].0,
        #[trigger] fields[j].0,
    ) by {
        assert(i == 0 && j == 1);
    }
    assert forall|i: int| 0 <= i < fields.len() implies json_sorted(
        #[trigger] fields[i].1,
        126,
    ) by {
        if i == 1 {
            assert(fields[1].1 == JsonView::Text(model_path));
        }
    }
}

/// A model's entry of the local bounds cache.
#[derive(Debug)]
pub struct ModelBoundsCacheEntry {
    pub model_path: String,
    pub bounds_json: String,
}

/// What reading a cache file of the bounds directory gives (`path` is how
/// the file is shown in messages): an error when the text is not JSON;
/// nothing when it lacks a string `modelPath` or a `bounds` member; else
/// the model path and the bounds as compact JSON.
pub open spec fn cache_entry_of(path: Seq<char>, text: Seq<char>) -> Result<
    Option<(Seq<char>, Seq<char>)>,
    Seq<char>,
> {
    match json_parse_of(text) {
        Err(e) => Err("Could not parse bounds cache "@ + path + ": "@ + e),
        Ok(doc) => match (member_text(doc, "modelPath"@), json_member(doc, "bounds"@)) {
            (Some(mp), Some(b)) => match json_compact_of(b) {
                Ok(t) => Ok(Some((mp, t))),
                Err(e) => Err(e),
            },
            _ => Ok(None),
        },
    }
}

pub open spec fn entry_result(r: Result<Option<ModelBoundsCacheEntry>, String>) -> Result<
    Option<(Seq<char>, Seq<char>)>,
    Seq<char>,
> {
    match r {
        Ok(Some(e)) => Ok(Some((e.model_path@, e.bounds_json@))),
        Ok(None) => Ok(None),
        Err(e) => Err(e@),
    }
}

/// Reads a cache file of the bounds directory (see `cache_entry_of`). A
/// file with both members gives an entry, whose bounds read back as the
/// file's bounds member.
pub fn bounds_cache_entry(path: &str, text: &str) -> (res: Result<Option<ModelBoundsCacheEntry>, String>)
    ensures
        entry_result(res) == cache_entry_of(path@, text@),
        match json_parse_of(text@) {
            Ok(doc) => match (member_text(doc, "modelPath"@), json_member(doc, "bounds"@)) {
                (Some(mp), Some(b)) => res matches Ok(Some(e)) && (json_sorted(doc, 127)
                    ==> json_reads_back(e.bounds_json@, b)),
                _ => true,
            },
            Err(_) => true,
        },
{
    match parse_json(text) {
        Err(e) => {
            let a = concat_chars(&chars_of("Could not parse bounds cache "), &chars_of(path));
            let b = concat_chars(&a, &chars_of(": "));
            Err(string_of(&concat_chars(&b, &chars_of(e.as_str()))))
        },
        Ok(doc) => {
            let model_path = match get_member_text(&doc, "modelPath") {
                Some(m) => m,
                None => {
                    return Ok(None);
                },
            };
            let bounds = match get_member(&doc, "bounds") {
                Some(b) => b,
                None => {
                    return Ok(None);
                },
            };
            proof {
                if json_sorted(doc@, 127) {
                    lemma_member_sorted(doc@, "bounds"@, 127);
                }
            }
            match to_json_text(bounds) {
                Ok(t) => Ok(Some(ModelBoundsCacheEntry { model_path, bounds_json: t })),
                Err(e) => Err(e),
            }
        },
    }
}

/// A member of a sorted document is sorted within as many levels.
proof fn lemma_member_sorted(doc: JsonView, key: Seq<char>, levels: nat)
    requires
        json_sorted(doc, levels),
        json_member(doc, key) is Some,
    ensures
        json_sorted(json_member(doc, key)->Some_0, levels),
{
    match doc {
        JsonView::Object(fields) => {
            lemma_member_index_found(fields, key);
            let i = member_index(fields, key)->Some_0;
            assert(json_sorted(fields[i].1, (levels - 1) as nat));
            lemma_json_sorted_more_levels(fields[i].1, (levels - 1) as nat, levels);
        },
        _ => {},
    }
}

/// A cache file written for a model reads back as that model's entry: the
/// text parses, its `modelPath` is the model path written, and its
/// `bounds` member is alike the bounds written (the same structure and
/// texts; `serde_json` reads floats back only approximately, so numbers
/// are not compared), within a document that `bounds_cache_entry` reads
/// into an entry whose bounds read back as that member. This holds of
/// bounds nested at most 126 levels deep: the cache file's object takes
/// one of the 127 levels that `serde_json` reads.
pub proof fn law_bounds_cache_round_trip(model_path: Seq<char>, bounds_json: Seq<char>, text: Seq<char>)
    requires
        json_parse_of(bounds_json) is Ok,
        json_sorted(json_parse_of(bounds_json)->Ok_0, 126),
        bounds_document_text(model_path, bounds_json) == Ok::<Seq<char>, Seq<char>>(text),
        json_reads_back(text, bounds_document(json_parse_of(bounds_json)->Ok_0, model_path)),
    ensures
        json_parse_of(text) is Ok,
        json_sorted(json_parse_of(text)->Ok_0, 127),
        member_text(json_parse_of(text)->Ok_0, "modelPath"@) == Some(model_path),
        json_member(json_parse_of(text)->Ok_0, "bounds"@) is Some,
        json_alike(
            json_member(json_parse_of(text)->Ok_0, "bounds"@)->Some_0,
            json_parse_of(bounds_json)->Ok_0,
            126,
        ),
{
    reveal_strlit("bounds");
    reveal_strlit("modelPath");
    let b = json_parse_of(bounds_json)->Ok_0;
    let written = bounds_document(b, model_path);
    let back = json_parse_of(text)->Ok_0;
    lemma_bounds_document_sorted(b, model_path);
    lemma_alike_sorted(back, written, 127);
    let wf = seq![("bounds"@, b), ("modelPath"@, JsonView::Text(model_path))];
    let bf = back->Object_0;
    assert(bf.len() == 2);
    assert(bf[0].0 == "bounds"@ && json_alike(bf[0].1, b, 126)) by {
        assert(wf[0].0 == "bounds"@);
    }
    assert(bf[1].0 == "modelPath"@ && json_alike(bf[1].1, JsonView::Text(model_path), 126)) by {
        assert(wf[1].0 == "modelPath"@);
    }
    assert(bf[1].1 == JsonView::Text(model_path));
    assert(bf.drop_last().drop_last() =~= Seq::<(Seq<char>, JsonView)>::empty());
    assert(bf.drop_last().last() == bf[0]);
    assert(member_index(bf.drop_last().drop_last(), "bounds"@) is None);
    assert(member_index(bf.drop_last().drop_last(), "modelPath"@) is None);
    assert(member_index(bf.drop_last(), "bounds"@) == Some(0int));
    assert(member_index(bf, "bounds"@) == Some(0int));
    assert("bounds"@.len() != "modelPath"@.len());
    assert(member_index(bf.drop_last(), "modelPath"@) is None);
    assert(member_index(bf, "modelPath"@) == Some(1int));
}

/// A document alike a sorted one is sorted too.
proof fn lemma_alike_sorted(a: JsonView, b: JsonView, levels: nat)
    requires
        json_alike(a, b, levels),
        json_sorted(b, levels),
    ensures
        json_sorted(a, levels),
    decreases levels,
{
    match (a, b) {
        (JsonView::Array(xs), JsonView::Array(ys)) => {
            assert forall|i: int| 0 <= i < xs.len() implies json_sorted(
                #[trigger] xs[i],
                (levels - 1) as nat,
            ) by {
                assert(json_alike(xs[i], ys[i], (levels - 1) as nat));
                assert(json_sorted(ys[i], (levels - 1) as nat));
                lemma_alike_sorted(xs[i], ys[i], (levels - 1) as nat);
            }
        },
        (JsonView::Object(xs), JsonView::Object(ys)) => {
            assert forall|i: int, j: int| 0 <= i < j < xs.len() implies seq_lt(
                #[trigger] xs[i].0,
                #[trigger] xs[j].0,
            ) by {
                assert(xs[i].0 == ys[i].0);
                assert(xs[j].0 == ys[j].0);
                assert(seq_lt(ys[i].0, ys[j].0));
            }
            assert forall|i: int| 0 <= i < xs.len() implies json_sorted(
                #[trigger] xs[i].1,
                (levels - 1) as nat,
            ) by {
                assert(xs[i].0 == ys[i].0);
                assert(json_sorted(ys[i].1, (levels - 1) as nat));
                lemma_alike_sorted(xs[i].1, ys[i].1, (levels - 1) as nat);
            }
        },
        _ => {},
    }
}

// ---------------------------------------------------------------------------
// The generated bounds module
// ---------------------------------------------------------------------------

pub open spec fn bounds_module_prefix() -> Seq<char> {
    "import type { ModelBoundsSet } from \"./modelBoundsTypes\";\n\nexport const PRECOMPUTED_MODEL_BOUNDS: Record<string, ModelBoundsSet> = "@
}

/// Where the generated bounds module is written: `src/modelBounds.generated.ts`
/// under the project root; an error when the application crate's directory
/// has no parent.
pub fn precomputed_bounds_path(manifest_dir: &str) -> (res: Result<String, String>)
    ensures
        match parent_of(manifest_dir@) {
            None => res is Err && res->Err_0@ == "Could not resolve project root."@,
            Some(root) => res is Ok && res->Ok_0@ == joined(
                joined(root, "src"@),
                "modelBounds.generated.ts"@,
            ),
        },
{
    match path_parent(manifest_dir) {
        None => Err(string_of(&chars_of("Could not resolve project root."))),
        Some(root) => {
            let src = path_join(root.as_str(), "src");
            Ok(path_join(src.as_str(), "modelBounds.generated.ts"))
        },
    }
}

/// The generated bounds module: the bounds JSON pretty printed as the value
/// of `PRECOMPUTED_MODEL_BOUNDS`.
pub fn precomputed_bounds_module(bounds_json: &str) -> (res: Result<String, String>)
    ensures
        match json_parse_of(bounds_json@) {
            Err(e) => res is Err && res->Err_0@ == "Could not parse generated bounds JSON: "@ + e,
            Ok(doc) => match json_pretty_of(doc) {
                Err(e) => res is Err && res->Err_0@ == "Could not format generated bounds JSON: "@
                    + e,
                Ok(p) => res is Ok && res->Ok_0@ == bounds_module_prefix() + p + ";\n"@,
            },
        },
        res is Ok <==> json_parse_of(bounds_json@) is Ok,
{
    match parse_json(bounds_json) {
        Err(e) => Err(prefixed("Could not parse generated bounds JSON: ", &e)),
        Ok(doc) => match to_json_text_pretty(&doc) {
            Err(e) => Err(prefixed("Could not format generated bounds JSON: ", &e)),
            Ok(p) => {
                let head = prefixed(
                    "import type { ModelBoundsSet } from \"./modelBoundsTypes\";\n\nexport const PRECOMPUTED_MODEL_BOUNDS: Record<string, ModelBoundsSet> = ",
                    &p,
                );
                Ok(string_of(&concat_chars(&chars_of(head.as_str()), &chars_of(";\n"))))
            },
        },
    }
}

} // verus!
