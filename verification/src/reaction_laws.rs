use vstd::prelude::*;

use crate::reactions::{
    asset_stem, collect_spec, dedup_reactions_spec, discover_reactions_spec, expression_file_reactions,
    expression_reaction, expression_suffix, filter_suffix, has_same, has_suffix_file, hotkey_reactions,
    insert_path, motion_file_reactions, motion_reaction, motion_suffix, path_lt, path_text,
    same_reaction, sort_paths, HotkeyView, ReactionView, hotkey_reaction, or_empty, motion_kind,
    expression_kind,
};

verus! {

// ---------------------------------------------------------------------------
// Repeated reactions
// ---------------------------------------------------------------------------

proof fn lemma_same_reaction_symmetric(a: ReactionView, b: ReactionView)
    ensures
        same_reaction(a, b) == same_reaction(b, a),
{
}

proof fn lemma_dedup_reactions(s: Seq<ReactionView>)
    ensures
        forall|i: int| 0 <= i < dedup_reactions_spec(s).len() ==> s.contains(#[trigger] dedup_reactions_spec(s)[i]),
        forall|i: int, j: int|
            0 <= i < j < dedup_reactions_spec(s).len() ==> !same_reaction(
                #[trigger] dedup_reactions_spec(s)[i],
                #[trigger] dedup_reactions_spec(s)[j],
            ),
        forall|k: int| 0 <= k < s.len() ==> has_same(dedup_reactions_spec(s), #[trigger] s[k]),
    decreases s.len(),
{
    if s.len() > 0 {
        let sp = s.drop_last();
        lemma_dedup_reactions(sp);
        let r = dedup_reactions_spec(sp);
        let d = dedup_reactions_spec(s);
        let x = s.last();
        assert forall|y: ReactionView| sp.contains(y) implies s.contains(y) by {
            let k = choose|k: int| 0 <= k < sp.len() && sp[k] == y;
            assert(s[k] == y);
        }
        assert(s[s.len() - 1] == x);
        if has_same(r, x) {
            assert(d == r);
            assert forall|i: int| 0 <= i < d.len() implies s.contains(#[trigger] d[i]) by {
                assert(sp.contains(r[i]));
            }
            assert forall|k: int| 0 <= k < s.len() implies has_same(d, #[trigger] s[k]) by {
                if k < s.len() - 1 {
                    assert(sp[k] == s[k]);
                    assert(has_same(r, sp[k]));
                }
            }
        } else {
            assert(d == r.push(x));
            assert forall|i: int| 0 <= i < d.len() implies s.contains(#[trigger] d[i]) by {
                if i < r.len() {
                    assert(d[i] == r[i]);
                    assert(sp.contains(r[i]));
                }
            }
            assert forall|i: int, j: int| 0 <= i < j < d.len() implies !same_reaction(#[trigger] d[i], #[trigger] d[j]) by {
                if j < r.len() {
                    assert(d[i] == r[i] && d[j] == r[j]);
                } else {
                    assert(d[i] == r[i] && d[j] == x);
                    if same_reaction(r[i], x) {
                        assert(has_same(r, x));
                    }
                }
            }
            assert forall|k: int| 0 <= k < s.len() implies has_same(d, #[trigger] s[k]) by {
                if k < s.len() - 1 {
                    assert(sp[k] == s[k]);
                    assert(has_same(r, sp[k]));
                    let i = choose|i: int| 0 <= i < r.len() && same_reaction(#[trigger] r[i], sp[k]);
                    assert(d[i] == r[i]);
                } else {
                    assert(d[r.len() as int] == x);
                    assert(same_reaction(x, x));
                }
            }
        }
    }
}

/// Removing repeated reactions keeps only reactions of the input, no two
/// of which play the same thing, and keeps a reaction playing the same
/// thing as each input reaction.
pub proof fn law_dedup_reactions(s: Seq<ReactionView>)
    ensures
        forall|i: int| 0 <= i < dedup_reactions_spec(s).len() ==> s.contains(#[trigger] dedup_reactions_spec(s)[i]),
        forall|i: int, j: int|
            0 <= i < dedup_reactions_spec(s).len() && 0 <= j < dedup_reactions_spec(s).len() && i != j
                ==> !same_reaction(
                #[trigger] dedup_reactions_spec(s)[i],
                #[trigger] dedup_reactions_spec(s)[j],
            ),
        forall|k: int| 0 <= k < s.len() ==> has_same(dedup_reactions_spec(s), #[trigger] s[k]),
{
    lemma_dedup_reactions(s);
    let d = dedup_reactions_spec(s);
    assert forall|i: int, j: int|
        0 <= i < d.len() && 0 <= j < d.len() && i != j implies !same_reaction(#[trigger] d[i], #[trigger] d[j]) by {
        if j < i {
            lemma_same_reaction_symmetric(d[i], d[j]);
        }
    }
}

/// Removing repeated reactions is idempotent.
pub proof fn law_dedup_reactions_idempotent(s: Seq<ReactionView>)
    ensures
        dedup_reactions_spec(dedup_reactions_spec(s)) == dedup_reactions_spec(s),
{
    lemma_dedup_reactions(s);
    lemma_dedup_distinct_fixed(dedup_reactions_spec(s));
}

proof fn lemma_dedup_distinct_fixed(s: Seq<ReactionView>)
    requires
        forall|i: int, j: int| 0 <= i < j < s.len() ==> !same_reaction(#[trigger] s[i], #[trigger] s[j]),
    ensures
        dedup_reactions_spec(s) == s,
    decreases s.len(),
{
    if s.len() > 0 {
        let sp = s.drop_last();
        assert forall|i: int, j: int| 0 <= i < j < sp.len() implies !same_reaction(#[trigger] sp[i], #[trigger] sp[j]) by {
            assert(sp[i] == s[i] && sp[j] == s[j]);
        }
        lemma_dedup_distinct_fixed(sp);
        if has_same(sp, s.last()) {
            let i = choose|i: int| 0 <= i < sp.len() && same_reaction(#[trigger] sp[i], s.last());
            assert(sp[i] == s[i]);
            assert(s[s.len() - 1] == s.last());
        }
        assert(sp.push(s.last()) =~= s);
    }
}

// ---------------------------------------------------------------------------
// Every motion and expression file has its reaction
// ---------------------------------------------------------------------------

/// Every motion file of the model directory is played by some discovered
/// reaction (the motion group named after the file), and so is every
/// expression file, whether or not a hotkey names it.
pub proof fn law_files_have_reactions(hs: Seq<HotkeyView>, direct: Seq<bool>, files: Seq<Seq<Seq<char>>>)
    ensures
        forall|k: int|
            0 <= k < collect_spec(files, motion_suffix()).len() ==> has_same(
                discover_reactions_spec(hs, direct, files),
                motion_reaction(
                    asset_stem(path_text(#[trigger] collect_spec(files, motion_suffix())[k]), motion_suffix()),
                    asset_stem(path_text(collect_spec(files, motion_suffix())[k]), motion_suffix()),
                ),
            ),
        forall|k: int|
            0 <= k < collect_spec(files, expression_suffix()).len() ==> has_same(
                discover_reactions_spec(hs, direct, files),
                expression_reaction(
                    asset_stem(path_text(#[trigger] collect_spec(files, expression_suffix())[k]), expression_suffix()),
                    asset_stem(path_text(collect_spec(files, expression_suffix())[k]), expression_suffix()),
                ),
            ),
{
    let a = hotkey_reactions(hs, direct, files);
    let ms = collect_spec(files, motion_suffix());
    let es = collect_spec(files, expression_suffix());
    let m = motion_file_reactions(ms);
    let e = expression_file_reactions(es);
    let all = a + m + e;
    lemma_dedup_reactions(all);
    assert forall|k: int| 0 <= k < ms.len() implies has_same(
        discover_reactions_spec(hs, direct, files),
        motion_reaction(
            asset_stem(path_text(#[trigger] ms[k]), motion_suffix()),
            asset_stem(path_text(ms[k]), motion_suffix()),
        ),
    ) by {
        assert(all[a.len() + k] == m[k]);
        assert(has_same(dedup_reactions_spec(all), all[a.len() + k]));
    }
    assert forall|k: int| 0 <= k < es.len() implies has_same(
        discover_reactions_spec(hs, direct, files),
        expression_reaction(
            asset_stem(path_text(#[trigger] es[k]), expression_suffix()),
            asset_stem(path_text(es[k]), expression_suffix()),
        ),
    ) by {
        assert(all[a.len() + m.len() + k] == e[k]);
        assert(has_same(dedup_reactions_spec(all), all[a.len() + m.len() + k]));
    }
}

// ---------------------------------------------------------------------------
// Collected files
// ---------------------------------------------------------------------------

/// No path of `s` sorts before an earlier one.
pub open spec fn sorted_paths(s: Seq<Seq<Seq<char>>>) -> bool {
    forall|i: int, j: int| 0 <= i < j < s.len() ==> !path_lt(#[trigger] s[j], #[trigger] s[i])
}

proof fn lemma_path_lt_irreflexive(a: Seq<Seq<char>>)
    ensures
        !path_lt(a, a),
    decreases a.len(),
{
    if a.len() > 0 {
        lemma_path_lt_irreflexive(a.drop_first());
    }
}

proof fn lemma_path_lt_transitive(a: Seq<Seq<char>>, b: Seq<Seq<char>>, c: Seq<Seq<char>>)
    requires
        path_lt(a, b),
        path_lt(b, c),
    ensures
        path_lt(a, c),
    decreases a.len(),
{
    if a.len() > 0 && b.len() > 0 && c.len() > 0 {
        if a[0] == b[0] && b[0] == c[0] {
            lemma_path_lt_transitive(a.drop_first(), b.drop_first(), c.drop_first());
        } else if a[0] == b[0] {
        } else if b[0] == c[0] {
        } else {
            crate::model_laws::lemma_seq_lt_transitive(a[0], b[0], c[0]);
            if a[0] == c[0] {
                crate::model_laws::lemma_seq_lt_irreflexive(a[0]);
            }
        }
    }
}

proof fn lemma_insert_path(s: Seq<Seq<Seq<char>>>, p: Seq<Seq<char>>)
    ensures
        forall|x: Seq<Seq<char>>| #[trigger] insert_path(s, p).contains(x) <==> (x == p || s.contains(x)),
        sorted_paths(s) ==> sorted_paths(insert_path(s, p)),
    decreases s.len(),
{
    let r = insert_path(s, p);
    if s.len() == 0 {
        assert forall|x: Seq<Seq<char>>| #[trigger] r.contains(x) <==> (x == p || s.contains(x)) by {
            if r.contains(x) {
                assert(r[0] == x);
            }
            if x == p {
                assert(r[0] == p);
            }
        }
    } else if path_lt(p, s[0]) {
        assert(r == seq![p] + s);
        assert forall|x: Seq<Seq<char>>| #[trigger] r.contains(x) <==> (x == p || s.contains(x)) by {
            if r.contains(x) {
                let k = choose|k: int| 0 <= k < r.len() && r[k] == x;
                if k > 0 {
                    assert(s[k - 1] == x);
                }
            }
            if x == p {
                assert(r[0] == p);
            }
            if s.contains(x) {
                let k = choose|k: int| 0 <= k < s.len() && s[k] == x;
                assert(r[k + 1] == x);
            }
        }
        if sorted_paths(s) {
            assert forall|i: int, j: int| 0 <= i < j < r.len() implies !path_lt(#[trigger] r[j], #[trigger] r[i]) by {
                if i == 0 {
                    assert(r[j] == s[j - 1]);
                    if path_lt(s[j - 1], p) {
                        lemma_path_lt_transitive(s[j - 1], p, s[0]);
                        if j - 1 == 0 {
                            lemma_path_lt_irreflexive(s[0]);
                        }
                    }
                } else {
                    assert(r[i] == s[i - 1] && r[j] == s[j - 1]);
                }
            }
        }
    } else {
        let t = s.drop_first();
        lemma_insert_path(t, p);
        let rt = insert_path(t, p);
        assert(r == seq![s[0]] + rt);
        assert forall|x: Seq<Seq<char>>| #[trigger] r.contains(x) <==> (x == p || s.contains(x)) by {
            if r.contains(x) {
                let k = choose|k: int| 0 <= k < r.len() && r[k] == x;
                if k == 0 {
                    assert(s[0] == x);
                } else {
                    assert(rt[k - 1] == x);
                    assert(rt.contains(x));
                    if t.contains(x) {
                        let q = choose|q: int| 0 <= q < t.len() && t[q] == x;
                        assert(s[q + 1] == x);
                    }
                }
            }
            if x == p {
                assert(rt.contains(p));
                let k = choose|k: int| 0 <= k < rt.len() && rt[k] == p;
                assert(r[k + 1] == p);
            }
            if s.contains(x) {
                let k = choose|k: int| 0 <= k < s.len() && s[k] == x;
                if k == 0 {
                    assert(r[0] == x);
                } else {
                    assert(t[k - 1] == x);
                    assert(t.contains(x));
                    assert(rt.contains(x));
                    let q = choose|q: int| 0 <= q < rt.len() && rt[q] == x;
                    assert(r[q + 1] == x);
                }
            }
        }
        if sorted_paths(s) {
            assert(sorted_paths(t)) by {
                assert forall|i: int, j: int| 0 <= i < j < t.len() implies !path_lt(#[trigger] t[j], #[trigger] t[i]) by {
                    assert(t[i] == s[i + 1] && t[j] == s[j + 1]);
                }
            }
            assert forall|i: int, j: int| 0 <= i < j < r.len() implies !path_lt(#[trigger] r[j], #[trigger] r[i]) by {
                if i == 0 {
                    assert(r[j] == rt[j - 1]);
                    assert(rt.contains(rt[j - 1]));
                    if rt[j - 1] != p {
                        assert(t.contains(rt[j - 1]));
                        let q = choose|q: int| 0 <= q < t.len() && t[q] == rt[j - 1];
                        assert(s[q + 1] == t[q]);
                    }
                } else {
                    assert(r[i] == rt[i - 1] && r[j] == rt[j - 1]);
                }
            }
        }
    }
}

proof fn lemma_sort_paths(s: Seq<Seq<Seq<char>>>)
    ensures
        forall|x: Seq<Seq<char>>| #[trigger] sort_paths(s).contains(x) <==> s.contains(x),
        sorted_paths(sort_paths(s)),
    decreases s.len(),
{
    if s.len() > 0 {
        let sp = s.drop_last();
        lemma_sort_paths(sp);
        lemma_insert_path(sort_paths(sp), s.last());
        assert forall|x: Seq<Seq<char>>| #[trigger] sort_paths(s).contains(x) <==> s.contains(x) by {
            if sp.contains(x) {
                let k = choose|k: int| 0 <= k < sp.len() && sp[k] == x;
                assert(s[k] == x);
            }
            if s.contains(x) && x != s.last() {
                let k = choose|k: int| 0 <= k < s.len() && s[k] == x;
                assert(sp[k] == x);
            }
            if x == s.last() {
                assert(s[s.len() - 1] == x);
            }
        }
    }
}

proof fn lemma_filter_suffix(s: Seq<Seq<Seq<char>>>, suffix: Seq<char>)
    ensures
        forall|x: Seq<Seq<char>>| #[trigger] filter_suffix(s, suffix).contains(x) <==> (s.contains(x) && has_suffix_file(x, suffix)),
    decreases s.len(),
{
    if s.len() > 0 {
        let sp = s.drop_last();
        lemma_filter_suffix(sp, suffix);
        let r = filter_suffix(sp, suffix);
        let f = filter_suffix(s, suffix);
        assert forall|x: Seq<Seq<char>>| #[trigger] f.contains(x) <==> (s.contains(x) && has_suffix_file(x, suffix)) by {
            if sp.contains(x) {
                let k = choose|k: int| 0 <= k < sp.len() && sp[k] == x;
                assert(s[k] == x);
            }
            if s.contains(x) && x != s.last() {
                let k = choose|k: int| 0 <= k < s.len() && s[k] == x;
                assert(sp[k] == x);
            }
            assert(s[s.len() - 1] == s.last());
            if has_suffix_file(s.last(), suffix) {
                assert(f == r.push(s.last()));
                if f.contains(x) {
                    let k = choose|k: int| 0 <= k < f.len() && f[k] == x;
                    if k < r.len() {
                        assert(r[k] == x);
                    }
                }
                if r.contains(x) {
                    let k = choose|k: int| 0 <= k < r.len() && r[k] == x;
                    assert(f[k] == x);
                }
                if x == s.last() {
                    assert(f[r.len() as int] == x);
                }
            }
        }
    }
}

/// The files collected from a model directory are exactly its visible
/// files whose name ends with the suffix, sorted as paths.
pub proof fn law_collected_files(files: Seq<Seq<Seq<char>>>, suffix: Seq<char>)
    ensures
        forall|x: Seq<Seq<char>>| #[trigger] collect_spec(files, suffix).contains(x) <==> (files.contains(x)
            && has_suffix_file(x, suffix)),
        sorted_paths(collect_spec(files, suffix)),
{
    lemma_filter_suffix(files, suffix);
    lemma_sort_paths(filter_suffix(files, suffix));
}

/// A hotkey's reaction is named by the hotkey's `Name` when it has one;
/// a hotkey without a name gives a motion named after its motion group and
/// an expression named after the expression it toggles, never a blank
/// entry in place of them.
pub proof fn law_hotkey_reaction_names(h: HotkeyView, direct: bool, files: Seq<Seq<Seq<char>>>)
    ensures
        match hotkey_reaction(h, direct, files) {
            Some(r) => {
                &&& r.kind == motion_kind() ==> r.group is Some && r.name == if or_empty(h.2).len() > 0 {
                    or_empty(h.2)
                } else {
                    r.group->Some_0
                }
                &&& r.kind == expression_kind() ==> r.expression is Some && r.name == if or_empty(
                    h.2,
                ).len() > 0 {
                    or_empty(h.2)
                } else {
                    r.expression->Some_0
                }
            },
            None => true,
        },
{
    reveal_strlit("motion");
    reveal_strlit("expression");
    reveal_strlit("clear");
    assert(motion_kind() != expression_kind()) by {
        assert(motion_kind().len() != expression_kind().len());
    }
    assert("clear"@ != motion_kind()) by {
        assert("clear"@.len() != motion_kind().len());
    }
    assert("clear"@ != expression_kind()) by {
        assert("clear"@.len() != expression_kind().len());
    }
}

} // verus!
