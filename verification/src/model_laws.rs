use vstd::prelude::*;

use crate::text::{is_ascii_alnum, all_ascii, ascii_lowercase, contains_seq, ends_with, lowercase, occurs_at, seq_lt, starts_with};
use crate::models::{
    all_candidates, alnum_pieces, name_score, first_long_piece, folder_file_name, keep_alnum, dedup_paths, discover_spec, folder_index, group_by_folder, insert_model,
    lemma_folder_index, model_before, preference_score, sort_models, ModelView,
};

verus! {

/// No two models of `s` share a folder.
pub open spec fn unique_folders(s: Seq<ModelView>) -> bool {
    forall|i: int, j: int|
        0 <= i < s.len() && 0 <= j < s.len() && i != j ==> #[trigger] s[i].folder != #[trigger] s[j].folder
}

/// No model of `s` sorts before an earlier one.
pub open spec fn sorted_models(s: Seq<ModelView>) -> bool {
    forall|i: int, j: int| 0 <= i < j < s.len() ==> !model_before(#[trigger] s[j], #[trigger] s[i])
}

/// Some model of `s` is in `folder` and scores at least `score`.
pub open spec fn covers(s: Seq<ModelView>, folder: Seq<char>, score: int) -> bool {
    exists|i: int| 0 <= i < s.len() && #[trigger] s[i].folder == folder && preference_score(s[i]) >= score
}

// ---------------------------------------------------------------------------
// Grouping
// ---------------------------------------------------------------------------

proof fn lemma_group_by_folder(c: Seq<ModelView>)
    ensures
        unique_folders(group_by_folder(c)),
        forall|i: int| 0 <= i < group_by_folder(c).len() ==> c.contains(#[trigger] group_by_folder(c)[i]),
        forall|k: int| 0 <= k < c.len() ==> covers(group_by_folder(c), #[trigger] c[k].folder, preference_score(c[k])),
    decreases c.len(),
{
    if c.len() > 0 {
        let cp = c.drop_last();
        lemma_group_by_folder(cp);
        let g = group_by_folder(cp);
        let m = c.last();
        let idx = folder_index(g, m.folder);
        lemma_folder_index(g, m.folder);
        let gg = group_by_folder(c);
        assert forall|x: ModelView| cp.contains(x) implies c.contains(x) by {
            let k = choose|k: int| 0 <= k < cp.len() && cp[k] == x;
            assert(c[k] == x);
        }
        assert(c.contains(m)) by {
            assert(c[c.len() - 1] == m);
        }
        if idx < 0 {
            assert(gg == g.push(m));
            assert forall|i: int, j: int|
                0 <= i < gg.len() && 0 <= j < gg.len() && i != j implies #[trigger] gg[i].folder
                != #[trigger] gg[j].folder by {
                if i < g.len() && j < g.len() {
                    assert(gg[i] == g[i] && gg[j] == g[j]);
                } else if i < g.len() {
                    assert(gg[i] == g[i]);
                } else {
                    assert(gg[j] == g[j]);
                }
            }
            assert forall|i: int| 0 <= i < gg.len() implies c.contains(#[trigger] gg[i]) by {
                if i < g.len() {
                    assert(gg[i] == g[i]);
                    assert(c.contains(g[i]));
                }
            }
            assert forall|k: int| 0 <= k < c.len() implies covers(gg, #[trigger] c[k].folder, preference_score(c[k])) by {
                if k < c.len() - 1 {
                    assert(cp[k] == c[k]);
                    assert(covers(g, cp[k].folder, preference_score(cp[k])));
                    let i = choose|i: int| 0 <= i < g.len() && #[trigger] g[i].folder == cp[k].folder && preference_score(g[i]) >= preference_score(cp[k]);
                    assert(gg[i] == g[i]);
                } else {
                    assert(gg[g.len() as int] == m);
                }
            }
        } else if preference_score(m) > preference_score(g[idx]) {
            assert(gg == g.update(idx, m));
            assert forall|i: int, j: int|
                0 <= i < gg.len() && 0 <= j < gg.len() && i != j implies #[trigger] gg[i].folder
                != #[trigger] gg[j].folder by {
                assert(gg[i].folder == g[i].folder);
                assert(gg[j].folder == g[j].folder);
            }
            assert forall|i: int| 0 <= i < gg.len() implies c.contains(#[trigger] gg[i]) by {
                if i != idx {
                    assert(gg[i] == g[i]);
                    assert(c.contains(g[i]));
                }
            }
            assert forall|k: int| 0 <= k < c.len() implies covers(gg, #[trigger] c[k].folder, preference_score(c[k])) by {
                if k < c.len() - 1 {
                    assert(cp[k] == c[k]);
                    assert(covers(g, cp[k].folder, preference_score(cp[k])));
                    let i = choose|i: int| 0 <= i < g.len() && #[trigger] g[i].folder == cp[k].folder && preference_score(g[i]) >= preference_score(cp[k]);
                    if i == idx {
                        assert(gg[idx] == m);
                    } else {
                        assert(gg[i] == g[i]);
                    }
                } else {
                    assert(gg[idx] == m);
                }
            }
        } else {
            assert(gg == g);
            assert forall|i: int| 0 <= i < gg.len() implies c.contains(#[trigger] gg[i]) by {
                assert(c.contains(g[i]));
            }
            assert forall|k: int| 0 <= k < c.len() implies covers(gg, #[trigger] c[k].folder, preference_score(c[k])) by {
                if k < c.len() - 1 {
                    assert(cp[k] == c[k]);
                    assert(covers(g, cp[k].folder, preference_score(cp[k])));
                } else {
                    assert(gg[idx].folder == m.folder);
                }
            }
        }
    }
}

// ---------------------------------------------------------------------------
// The order
// ---------------------------------------------------------------------------

pub proof fn lemma_seq_lt_irreflexive(a: Seq<char>)
    ensures
        !seq_lt(a, a),
    decreases a.len(),
{
    if a.len() > 0 {
        lemma_seq_lt_irreflexive(a.drop_first());
    }
}

pub proof fn lemma_seq_lt_transitive(a: Seq<char>, b: Seq<char>, c: Seq<char>)
    requires
        seq_lt(a, b),
        seq_lt(b, c),
    ensures
        seq_lt(a, c),
    decreases a.len(),
{
    if a.len() > 0 && b.len() > 0 && c.len() > 0 {
        if a[0] == b[0] && b[0] == c[0] {
            lemma_seq_lt_transitive(a.drop_first(), b.drop_first(), c.drop_first());
        }
    }
}

proof fn lemma_model_before_irreflexive(a: ModelView)
    ensures
        !model_before(a, a),
{
    lemma_seq_lt_irreflexive(crate::text::lowercase(a.display_name));
    lemma_seq_lt_irreflexive(a.model_path);
}

proof fn lemma_model_before_transitive(a: ModelView, b: ModelView, c: ModelView)
    requires
        model_before(a, b),
        model_before(b, c),
    ensures
        model_before(a, c),
{
    let la = crate::text::lowercase(a.display_name);
    let lb = crate::text::lowercase(b.display_name);
    let lc = crate::text::lowercase(c.display_name);
    if a.is_default == b.is_default && b.is_default == c.is_default {
        if seq_lt(la, lb) && seq_lt(lb, lc) {
            lemma_seq_lt_transitive(la, lb, lc);
        } else if seq_lt(la, lb) {
        } else if seq_lt(lb, lc) {
        } else {
            lemma_seq_lt_transitive(a.model_path, b.model_path, c.model_path);
        }
    }
}

proof fn lemma_insert_model(s: Seq<ModelView>, m: ModelView)
    ensures
        insert_model(s, m).len() == s.len() + 1,
        forall|x: ModelView| #[trigger] insert_model(s, m).contains(x) <==> (x == m || s.contains(x)),
        sorted_models(s) ==> sorted_models(insert_model(s, m)),
        unique_folders(s) && (forall|j: int| 0 <= j < s.len() ==> #[trigger] s[j].folder != m.folder)
            ==> unique_folders(insert_model(s, m)),
    decreases s.len(),
{
    let r = insert_model(s, m);
    if s.len() == 0 {
        assert(r == seq![m]);
        assert forall|x: ModelView| #[trigger] r.contains(x) <==> (x == m || s.contains(x)) by {
            if r.contains(x) {
                assert(r[0] == x);
            }
            if x == m {
                assert(r[0] == m);
            }
        }
    } else if model_before(m, s[0]) {
        assert(r == seq![m] + s);
        assert forall|x: ModelView| #[trigger] r.contains(x) <==> (x == m || s.contains(x)) by {
            if r.contains(x) {
                let k = choose|k: int| 0 <= k < r.len() && r[k] == x;
                if k > 0 {
                    assert(s[k - 1] == x);
                }
            }
            if x == m {
                assert(r[0] == m);
            }
            if s.contains(x) {
                let k = choose|k: int| 0 <= k < s.len() && s[k] == x;
                assert(r[k + 1] == x);
            }
        }
        if sorted_models(s) {
            assert forall|i: int, j: int| 0 <= i < j < r.len() implies !model_before(#[trigger] r[j], #[trigger] r[i]) by {
                if i == 0 {
                    assert(r[j] == s[j - 1]);
                    if model_before(s[j - 1], m) {
                        lemma_model_before_transitive(s[j - 1], m, s[0]);
                        if j - 1 == 0 {
                            lemma_model_before_irreflexive(s[0]);
                        } else {
                            assert(!model_before(s[j - 1], s[0]));
                        }
                    }
                } else {
                    assert(r[i] == s[i - 1] && r[j] == s[j - 1]);
                }
            }
        }
        if unique_folders(s) && (forall|j: int| 0 <= j < s.len() ==> #[trigger] s[j].folder != m.folder) {
            assert forall|i: int, j: int|
                0 <= i < r.len() && 0 <= j < r.len() && i != j implies #[trigger] r[i].folder
                != #[trigger] r[j].folder by {
                if i == 0 {
                    assert(r[j] == s[j - 1]);
                } else if j == 0 {
                    assert(r[i] == s[i - 1]);
                } else {
                    assert(r[i] == s[i - 1] && r[j] == s[j - 1]);
                }
            }
        }
    } else {
        let t = s.drop_first();
        lemma_insert_model(t, m);
        let rt = insert_model(t, m);
        assert(r == seq![s[0]] + rt);
        assert forall|x: ModelView| #[trigger] r.contains(x) <==> (x == m || s.contains(x)) by {
            if r.contains(x) {
                let k = choose|k: int| 0 <= k < r.len() && r[k] == x;
                if k == 0 {
                    assert(s[0] == x);
                } else {
                    assert(rt[k - 1] == x);
                    assert(rt.contains(x));
                    if t.contains(x) {
                        let q = choose|q: int| 0 <= q < t.len() && t[q] == x;
                        assert(s[q + 1] == x);
                    }
                }
            }
            if x == m {
                assert(rt.contains(m));
                let k = choose|k: int| 0 <= k < rt.len() && rt[k] == m;
                assert(r[k + 1] == m);
            }
            if s.contains(x) {
                let k = choose|k: int| 0 <= k < s.len() && s[k] == x;
                if k == 0 {
                    assert(r[0] == x);
                } else {
                    assert(t[k - 1] == x);
                    assert(t.contains(x));
                    assert(rt.contains(x));
                    let q = choose|q: int| 0 <= q < rt.len() && rt[q] == x;
                    assert(r[q + 1] == x);
                }
            }
        }
        if sorted_models(s) {
            assert(sorted_models(t)) by {
                assert forall|i: int, j: int| 0 <= i < j < t.len() implies !model_before(#[trigger] t[j], #[trigger] t[i]) by {
                    assert(t[i] == s[i + 1] && t[j] == s[j + 1]);
                }
            }
            assert forall|i: int, j: int| 0 <= i < j < r.len() implies !model_before(#[trigger] r[j], #[trigger] r[i]) by {
                if i == 0 {
                    assert(r[j] == rt[j - 1]);
                    assert(rt.contains(rt[j - 1]));
                    if rt[j - 1] != m {
                        assert(t.contains(rt[j - 1]));
                        let q = choose|q: int| 0 <= q < t.len() && t[q] == rt[j - 1];
                        assert(s[q + 1] == t[q]);
                    }
                } else {
                    assert(r[i] == rt[i - 1] && r[j] == rt[j - 1]);
                }
            }
        }
        if unique_folders(s) && (forall|j: int| 0 <= j < s.len() ==> #[trigger] s[j].folder != m.folder) {
            assert(unique_folders(t)) by {
                assert forall|i: int, j: int|
                    0 <= i < t.len() && 0 <= j < t.len() && i != j implies #[trigger] t[i].folder
                    != #[trigger] t[j].folder by {
                    assert(t[i] == s[i + 1] && t[j] == s[j + 1]);
                }
            }
            assert forall|j: int| 0 <= j < t.len() implies #[trigger] t[j].folder != m.folder by {
                assert(t[j] == s[j + 1]);
            }
            assert forall|i: int, j: int|
                0 <= i < r.len() && 0 <= j < r.len() && i != j implies #[trigger] r[i].folder
                != #[trigger] r[j].folder by {
                if i == 0 || j == 0 {
                    let o = if i == 0 { j } else { i };
                    assert(r[o] == rt[o - 1]);
                    assert(rt.contains(rt[o - 1]));
                    if rt[o - 1] == m {
                        assert(s[0].folder != m.folder);
                    } else {
                        assert(t.contains(rt[o - 1]));
                        let q = choose|q: int| 0 <= q < t.len() && t[q] == rt[o - 1];
                        assert(s[q + 1] == t[q]);
                    }
                } else {
                    assert(r[i] == rt[i - 1] && r[j] == rt[j - 1]);
                }
            }
        }
    }
}

proof fn lemma_sort_models(s: Seq<ModelView>)
    ensures
        sort_models(s).len() == s.len(),
        forall|x: ModelView| #[trigger] sort_models(s).contains(x) <==> s.contains(x),
        sorted_models(sort_models(s)),
        unique_folders(s) ==> unique_folders(sort_models(s)),
    decreases s.len(),
{
    if s.len() > 0 {
        let sp = s.drop_last();
        lemma_sort_models(sp);
        let ss = sort_models(sp);
        lemma_insert_model(ss, s.last());
        assert forall|x: ModelView| #[trigger] sort_models(s).contains(x) <==> s.contains(x) by {
            if sp.contains(x) {
                let k = choose|k: int| 0 <= k < sp.len() && sp[k] == x;
                assert(s[k] == x);
            }
            if s.contains(x) && x != s.last() {
                let k = choose|k: int| 0 <= k < s.len() && s[k] == x;
                assert(sp[k] == x);
            }
            if x == s.last() {
                assert(s[s.len() - 1] == x);
            }
        }
        if unique_folders(s) {
            assert(unique_folders(sp)) by {
                assert forall|i: int, j: int|
                    0 <= i < sp.len() && 0 <= j < sp.len() && i != j implies #[trigger] sp[i].folder
                    != #[trigger] sp[j].folder by {
                    assert(sp[i] == s[i] && sp[j] == s[j]);
                }
            }
            assert forall|j: int| 0 <= j < ss.len() implies #[trigger] ss[j].folder != s.last().folder by {
                assert(ss.contains(ss[j]));
                let k = choose|k: int| 0 <= k < sp.len() && sp[k] == ss[j];
                assert(s[k] == sp[k]);
                assert(s[s.len() - 1] == s.last());
            }
        }
    }
}

// ---------------------------------------------------------------------------
// Repeated paths
// ---------------------------------------------------------------------------

proof fn lemma_contains_drop_last(s: Seq<ModelView>)
    requires
        s.len() > 0,
    ensures
        forall|y: ModelView| s.drop_last().contains(y) ==> s.contains(y),
        s.contains(s.last()),
{
    assert forall|y: ModelView| s.drop_last().contains(y) implies s.contains(y) by {
        let k = choose|k: int| 0 <= k < s.drop_last().len() && s.drop_last()[k] == y;
        assert(s[k] == y);
    }
    assert(s[s.len() - 1] == s.last());
}

proof fn lemma_dedup_members(s: Seq<ModelView>)
    ensures
        dedup_paths(s).len() <= s.len(),
        s.len() > 0 ==> dedup_paths(s).len() > 0 && dedup_paths(s)[0] == s[0],
        forall|i: int| 0 <= i < dedup_paths(s).len() ==> s.contains(#[trigger] dedup_paths(s)[i]),
    decreases s.len(),
{
    if s.len() > 0 {
        let sp = s.drop_last();
        lemma_dedup_members(sp);
        lemma_contains_drop_last(s);
        let r = dedup_paths(sp);
        let d = dedup_paths(s);
        if sp.len() > 0 {
            assert(sp[0] == s[0]);
        }
        assert forall|i: int| 0 <= i < d.len() implies s.contains(#[trigger] d[i]) by {
            if i < r.len() {
                assert(d[i] == r[i]);
                assert(sp.contains(r[i]));
            }
        }
    }
}

/// Some model of `s` has the path `p`.
pub open spec fn has_path(s: Seq<ModelView>, p: Seq<char>) -> bool {
    exists|i: int| 0 <= i < s.len() && (#[trigger] s[i]).model_path == p
}

proof fn lemma_dedup_covers(s: Seq<ModelView>)
    ensures
        forall|k: int| 0 <= k < s.len() ==> has_path(dedup_paths(s), (#[trigger] s[k]).model_path),
    decreases s.len(),
{
    if s.len() > 0 {
        let sp = s.drop_last();
        lemma_dedup_covers(sp);
        let r = dedup_paths(sp);
        let d = dedup_paths(s);
        let x = s.last();
        assert forall|k: int| 0 <= k < s.len() implies has_path(d, (#[trigger] s[k]).model_path) by {
            if k < s.len() - 1 {
                assert(sp[k] == s[k]);
                assert(has_path(r, sp[k].model_path));
                let i = choose|i: int| 0 <= i < r.len() && (#[trigger] r[i]).model_path == sp[k].model_path;
                assert(d[i] == r[i]);
                assert(d[i].model_path == s[k].model_path);
            } else if r.len() > 0 && r.last().model_path == x.model_path {
                assert(d[r.len() - 1] == r.last());
                assert(d[r.len() - 1].model_path == s[k].model_path);
            } else {
                assert(d[r.len() as int] == x);
                assert(d[r.len() as int].model_path == s[k].model_path);
            }
        }
    }
}

proof fn lemma_dedup_sorted(s: Seq<ModelView>)
    requires
        sorted_models(s),
    ensures
        sorted_models(dedup_paths(s)),
    decreases s.len(),
{
    if s.len() > 0 {
        let sp = s.drop_last();
        assert(sorted_models(sp)) by {
            assert forall|i: int, j: int| 0 <= i < j < sp.len() implies !model_before(#[trigger] sp[j], #[trigger] sp[i]) by {
                assert(sp[i] == s[i] && sp[j] == s[j]);
            }
        }
        lemma_dedup_sorted(sp);
        lemma_dedup_members(sp);
        let r = dedup_paths(sp);
        let d = dedup_paths(s);
        if !(r.len() > 0 && r.last().model_path == s.last().model_path) {
            assert forall|i: int, j: int| 0 <= i < j < d.len() implies !model_before(#[trigger] d[j], #[trigger] d[i]) by {
                if j < r.len() {
                    assert(d[i] == r[i] && d[j] == r[j]);
                } else {
                    assert(d[i] == r[i]);
                    assert(sp.contains(r[i]));
                    let k = choose|k: int| 0 <= k < sp.len() && sp[k] == r[i];
                    assert(s[k] == r[i]);
                    assert(d[j] == s[s.len() - 1]);
                }
            }
        }
    }
}

proof fn lemma_dedup_unique(s: Seq<ModelView>)
    requires
        unique_folders(s),
    ensures
        unique_folders(dedup_paths(s)),
    decreases s.len(),
{
    if s.len() > 0 {
        let sp = s.drop_last();
        assert(unique_folders(sp)) by {
            assert forall|i: int, j: int|
                0 <= i < sp.len() && 0 <= j < sp.len() && i != j implies #[trigger] sp[i].folder
                != #[trigger] sp[j].folder by {
                assert(sp[i] == s[i] && sp[j] == s[j]);
            }
        }
        lemma_dedup_unique(sp);
        lemma_dedup_members(sp);
        let r = dedup_paths(sp);
        let d = dedup_paths(s);
        let x = s.last();
        if !(r.len() > 0 && r.last().model_path == x.model_path) {
            assert forall|i: int, j: int|
                0 <= i < d.len() && 0 <= j < d.len() && i != j implies #[trigger] d[i].folder
                != #[trigger] d[j].folder by {
                if i < r.len() && j < r.len() {
                    assert(d[i] == r[i] && d[j] == r[j]);
                } else {
                    let o = if i < r.len() { i } else { j };
                    assert(d[o] == r[o]);
                    assert(sp.contains(r[o]));
                    let k = choose|k: int| 0 <= k < sp.len() && sp[k] == r[o];
                    assert(s[k] == r[o]);
                    assert(s[s.len() - 1] == x);
                }
            }
        }
    }
}

// ---------------------------------------------------------------------------
// Laws of model discovery
// ---------------------------------------------------------------------------

/// A model that is not the default scores at most 120 (40 for its name's
/// length and 80 for matching its folder).
pub proof fn lemma_non_default_score_bound(m: ModelView)
    requires
        !m.is_default,
    ensures
        preference_score(m) <= 120,
{
}

/// The default model is preferred to every other model of its folder.
pub proof fn law_default_model_preferred(default_model: ModelView, other: ModelView)
    requires
        default_model.is_default,
        !other.is_default,
    ensures
        preference_score(default_model) > preference_score(other),
{
    lemma_non_default_score_bound(other);
}

/// Discovery lists at most one model per folder.
pub proof fn law_one_model_per_folder(
    roots: Seq<(Seq<char>, Seq<Seq<char>>)>,
    default_model: Option<Seq<char>>,
)
    ensures
        unique_folders(discover_spec(roots, default_model)),
{
    let c = all_candidates(roots, default_model);
    lemma_group_by_folder(c);
    lemma_sort_models(group_by_folder(c));
    lemma_dedup_unique(sort_models(group_by_folder(c)));
}

/// The discovered models are sorted: default models first, then by
/// lowercased display name, then by path.
pub proof fn law_models_sorted(roots: Seq<(Seq<char>, Seq<Seq<char>>)>, default_model: Option<Seq<char>>)
    ensures
        sorted_models(discover_spec(roots, default_model)),
{
    let c = all_candidates(roots, default_model);
    lemma_sort_models(group_by_folder(c));
    lemma_dedup_sorted(sort_models(group_by_folder(c)));
}

/// Every discovered model is one of the `.model3.json` files found.
pub proof fn law_models_are_found_files(
    roots: Seq<(Seq<char>, Seq<Seq<char>>)>,
    default_model: Option<Seq<char>>,
)
    ensures
        forall|i: int|
            0 <= i < discover_spec(roots, default_model).len() ==> all_candidates(
                roots,
                default_model,
            ).contains(#[trigger] discover_spec(roots, default_model)[i]),
{
    let c = all_candidates(roots, default_model);
    let g = group_by_folder(c);
    let srt = sort_models(g);
    lemma_group_by_folder(c);
    lemma_sort_models(g);
    lemma_dedup_members(srt);
    let r = dedup_paths(srt);
    assert forall|i: int| 0 <= i < r.len() implies c.contains(#[trigger] r[i]) by {
        assert(srt.contains(r[i]));
        assert(g.contains(r[i]));
        let k = choose|k: int| 0 <= k < g.len() && g[k] == r[i];
    }
}

/// When the default model is among the files found, it comes first.
pub proof fn law_default_model_first(
    roots: Seq<(Seq<char>, Seq<Seq<char>>)>,
    default_model: Option<Seq<char>>,
)
    requires
        exists|k: int|
            0 <= k < all_candidates(roots, default_model).len() && (#[trigger] all_candidates(
                roots,
                default_model,
            )[k]).is_default,
    ensures
        discover_spec(roots, default_model).len() > 0,
        discover_spec(roots, default_model)[0].is_default,
{
    let c = all_candidates(roots, default_model);
    let g = group_by_folder(c);
    let srt = sort_models(g);
    lemma_group_by_folder(c);
    lemma_sort_models(g);
    lemma_dedup_members(srt);
    let k = choose|k: int| 0 <= k < c.len() && (#[trigger] c[k]).is_default;
    assert(covers(g, c[k].folder, preference_score(c[k])));
    let i = choose|i: int| 0 <= i < g.len() && #[trigger] g[i].folder == c[k].folder && preference_score(g[i]) >= preference_score(c[k]);
    if !g[i].is_default {
        lemma_non_default_score_bound(g[i]);
    }
    assert(g.contains(g[i]));
    assert(srt.contains(g[i]));
    let j = choose|j: int| 0 <= j < srt.len() && srt[j] == g[i];
    if !srt[0].is_default {
        if j > 0 {
            assert(!model_before(srt[j], srt[0]));
        }
    }
}

/// Each folder where a model was found keeps one of its models of highest
/// preference score, provided that models with the same path are in the
/// same folder (as holds for files found by walking the folders).
pub proof fn law_preferred_model_per_folder(
    roots: Seq<(Seq<char>, Seq<Seq<char>>)>,
    default_model: Option<Seq<char>>,
)
    requires
        forall|a: int, b: int|
            0 <= a < all_candidates(roots, default_model).len() && 0 <= b < all_candidates(
                roots,
                default_model,
            ).len() && (#[trigger] all_candidates(roots, default_model)[a]).model_path == (
            #[trigger] all_candidates(roots, default_model)[b]).model_path ==> all_candidates(
                roots,
                default_model,
            )[a].folder == all_candidates(roots, default_model)[b].folder,
    ensures
        forall|k: int|
            0 <= k < all_candidates(roots, default_model).len() ==> covers(
                discover_spec(roots, default_model),
                (#[trigger] all_candidates(roots, default_model)[k]).folder,
                preference_score(all_candidates(roots, default_model)[k]),
            ),
{
    let c = all_candidates(roots, default_model);
    let g = group_by_folder(c);
    let srt = sort_models(g);
    let r = dedup_paths(srt);
    lemma_group_by_folder(c);
    lemma_sort_models(g);
    lemma_dedup_members(srt);
    lemma_dedup_covers(srt);
    assert forall|k: int| 0 <= k < c.len() implies covers(r, (#[trigger] c[k]).folder, preference_score(c[k])) by {
        assert(covers(g, c[k].folder, preference_score(c[k])));
        let i = choose|i: int| 0 <= i < g.len() && #[trigger] g[i].folder == c[k].folder && preference_score(g[i]) >= preference_score(c[k]);
        assert(g.contains(g[i]));
        assert(srt.contains(g[i]));
        let j = choose|j: int| 0 <= j < srt.len() && srt[j] == g[i];
        assert(has_path(r, srt[j].model_path));
        let w = choose|w: int| 0 <= w < r.len() && (#[trigger] r[w]).model_path == srt[j].model_path;
        assert(srt.contains(r[w]));
        assert(g.contains(r[w]));
        let q = choose|q: int| 0 <= q < g.len() && g[q] == r[w];
        assert(c.contains(g[q]));
        assert(c.contains(g[i]));
        let a = choose|a: int| 0 <= a < c.len() && c[a] == g[q];
        let b = choose|b: int| 0 <= b < c.len() && c[b] == g[i];
        assert(c[a].model_path == c[b].model_path);
        assert(g[q].folder == g[i].folder);
        if q != i {
            assert(g[q].folder != g[i].folder);
        }
        assert(r[w].folder == c[k].folder);
    }
}


/// The preference score does not depend on ASCII case: two models that are
/// both the default or both not, whose names and folder names are ASCII
/// and agree once lowercased and reduced to letters and digits, score the
/// same.
pub proof fn law_score_ignores_ascii_case(m: ModelView, m2: ModelView)
    requires
        m.is_default == m2.is_default,
        all_ascii(m.display_name),
        all_ascii(m2.display_name),
        all_ascii(folder_file_name(m)),
        all_ascii(folder_file_name(m2)),
        keep_alnum(ascii_lowercase(m.display_name)) == keep_alnum(ascii_lowercase(m2.display_name)),
        keep_alnum(ascii_lowercase(folder_file_name(m))) == keep_alnum(
            ascii_lowercase(folder_file_name(m2)),
        ),
    ensures
        preference_score(m) == preference_score(m2),
{
}

/// The normalized name by which a model is scored: its display name
/// lowercased, reduced to ASCII letters and digits.
pub open spec fn scored_name(m: ModelView) -> Seq<char> {
    keep_alnum(lowercase(m.display_name))
}

/// The normalized name of a model's folder.
pub open spec fn scored_folder(m: ModelView) -> Seq<char> {
    keep_alnum(lowercase(folder_file_name(m)))
}

/// A model that is not the default and whose normalized name ends in `v1`
/// scores at most 40: its name counts at most 40 and its folder at most
/// 80, and the `v1` costs 80.
pub proof fn law_v1_scores_at_most_40(m: ModelView)
    requires
        !m.is_default,
        ends_with(scored_name(m), "v1"@),
    ensures
        preference_score(m) <= 40,
{
}

/// Ending in `v1` rather than `v2` costs a model 80 points, other things
/// equal: two models that are not the default, of the same folder, whose
/// normalized names are `p` followed by `v1` and by `v2` (not starting
/// with `modelv`, which costs the same 80 already), neither being the
/// folder's normalized name, and holding the folder's normalized name
/// alike, score 80 apart, so the `v2` model is the one preferred.
pub proof fn law_v1_costs_80(m1: ModelView, m2: ModelView, p: Seq<char>)
    requires
        !m1.is_default,
        !m2.is_default,
        m1.folder == m2.folder,
        scored_name(m1) == p + "v1"@,
        scored_name(m2) == p + "v2"@,
        !starts_with(scored_name(m1), "modelv"@),
        scored_name(m1) != scored_folder(m1),
        scored_name(m2) != scored_folder(m2),
        contains_seq(scored_name(m1), scored_folder(m1)) == contains_seq(
            scored_name(m2),
            scored_folder(m2),
        ),
    ensures
        preference_score(m2) == preference_score(m1) + 80,
{
    reveal_strlit("v1");
    reveal_strlit("v2");
    let f = scored_folder(m1);
    lemma_keep_alnum_is_alnum(lowercase(folder_file_name(m1)));
    lemma_alnum_single_piece(f);
    assert(first_long_piece(seq![f]) == if f.len() > 2 { Some(f) } else { None::<Seq<char>> }) by {
        assert(seq![f].drop_last() =~= Seq::<Seq<char>>::empty());
        assert(first_long_piece(Seq::<Seq<char>>::empty()) is None);
        assert(seq![f].last() == f);
    }
    let n1 = p + "v1"@;
    let n2 = p + "v2"@;
    assert(n1.len() == n2.len());
    assert(n1.last() == '1');
    assert(n2.last() == '2');
    lemma_marks_avoid_suffix(p, "v1"@, "copy"@);
    lemma_marks_avoid_suffix(p, "v2"@, "copy"@);
    lemma_marks_avoid_suffix(p, "v1"@, "backup"@);
    lemma_marks_avoid_suffix(p, "v2"@, "backup"@);
    reveal_strlit("model");
    reveal_strlit("modelv");
    assert(n1 != "model"@) by {
        if n1 == "model"@ {
            assert(n1[4] == 'l');
        }
    }
    assert(n2 != "model"@) by {
        if n2 == "model"@ {
            assert(n2[4] == 'l');
        }
    }
    assert(starts_with(n1, "modelv"@) == starts_with(n2, "modelv"@)) by {
        if n1.len() >= 7 {
            assert(n1.take(6) =~= n2.take(6));
        } else if n1.len() == 6 {
            assert(n1.take(6)[5] == '1');
            assert(n2.take(6)[5] == '2');
        }
    }
    reveal_strlit("v1");
    assert(ends_with(n1, "v1"@)) by {
        assert(n1.skip(n1.len() - 2) =~= "v1"@);
    }
    assert(!ends_with(n2, "v1"@)) by {
        if ends_with(n2, "v1"@) {
            assert(n2.skip(n2.len() - 2)[1] == '2');
        }
    }
    assert(scored_folder(m2) == f);
    assert(preference_score(m1) == name_score(n1, f));
    assert(preference_score(m2) == name_score(n2, f));
    assert(contains_seq(n1, "copy"@) == contains_seq(n2, "copy"@));
    assert(contains_seq(n1, "backup"@) == contains_seq(n2, "backup"@));
    assert(contains_seq(n1, f) == contains_seq(n2, f));
}

/// A pattern without the characters `v`, `1` and `2` occurs in `p`
/// followed by two such characters exactly when it occurs in `p`.
proof fn lemma_marks_avoid_suffix(p: Seq<char>, tail: Seq<char>, q: Seq<char>)
    requires
        tail == "v1"@ || tail == "v2"@,
        q == "copy"@ || q == "backup"@,
    ensures
        contains_seq(p + tail, q) == contains_seq(p, q),
{
    reveal_strlit("v1");
    reveal_strlit("v2");
    reveal_strlit("copy");
    reveal_strlit("backup");
    let s = p + tail;
    assert(q.len() >= 4);
    assert(forall|j: int| 0 <= j < q.len() ==> q[j] != 'v' && q[j] != '1' && q[j] != '2');
    if contains_seq(s, q) {
        let i = choose|i: int| occurs_at(s, q, i);
        if i + q.len() > p.len() {
            let k = if i <= p.len() { p.len() - i } else { p.len() + 1 - i };
            assert(0 <= k < q.len());
            assert(s.subrange(i, i + q.len())[k] == q[k]);
            assert(s[i + k] == q[k]);
            assert(s[i + k] == tail[i + k - p.len()]);
        }
        assert(s.subrange(i, i + q.len()) =~= p.subrange(i, i + q.len()));
        assert(occurs_at(p, q, i));
    }
    if contains_seq(p, q) {
        let i = choose|i: int| occurs_at(p, q, i);
        assert(s.subrange(i, i + q.len()) =~= p.subrange(i, i + q.len()));
        assert(occurs_at(s, q, i));
    }
}

/// What `keep_alnum` keeps is ASCII letters and digits only.
proof fn lemma_keep_alnum_is_alnum(s: Seq<char>)
    ensures
        forall|i: int| 0 <= i < keep_alnum(s).len() ==> is_ascii_alnum(#[trigger] keep_alnum(s)[i]),
    decreases s.len(),
{
    if s.len() > 0 {
        lemma_keep_alnum_is_alnum(s.drop_last());
        let r = keep_alnum(s.drop_last());
        assert forall|i: int| 0 <= i < keep_alnum(s).len() implies is_ascii_alnum(
            #[trigger] keep_alnum(s)[i],
        ) by {
            if i < r.len() {
                assert(keep_alnum(s)[i] == r[i]);
            }
        }
    }
}

/// A text of ASCII letters and digits is a single piece.
proof fn lemma_alnum_single_piece(s: Seq<char>)
    requires
        forall|i: int| 0 <= i < s.len() ==> is_ascii_alnum(#[trigger] s[i]),
    ensures
        alnum_pieces(s) == seq![s],
    decreases s.len(),
{
    if s.len() > 0 {
        assert(is_ascii_alnum(s[s.len() - 1]));
        lemma_alnum_single_piece(s.drop_last());
        assert(s.drop_last().push(s.last()) =~= s);
        assert(alnum_pieces(s) =~= seq![s]);
    } else {
        assert(s =~= Seq::<char>::empty());
    }
}

} // verus!
