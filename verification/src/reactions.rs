use vstd::prelude::*;

use crate::json::{
    get_member, get_member_text, json_member, json_parse_of, member_text, parse_json, Json,
    JsonView,
};
use crate::paths::{file_name_of, opt_seq, path_file_name};
use crate::text::{
    chars_equal, chars_of, ends_with, ends_with_exec, join, join_exec, seq_lt, starts_with,
    string_of, trim_end_all, trim_end_all_exec, views,
};

verus! {

// ---------------------------------------------------------------------------
// Reactions
// ---------------------------------------------------------------------------

/// Something the companion can play: a motion group, an expression, or
/// clearing the expressions.
#[derive(Debug, Clone)]
pub struct CompanionReaction {
    pub kind: String,
    pub name: String,
    pub group: Option<String>,
    pub expression: Option<String>,
}

/// The abstract value of a reaction.
pub struct ReactionView {
    pub kind: Seq<char>,
    pub name: Seq<char>,
    pub group: Option<Seq<char>>,
    pub expression: Option<Seq<char>>,
}

impl View for CompanionReaction {
    type V = ReactionView;

    open spec fn view(&self) -> ReactionView {
        ReactionView {
            kind: self.kind@,
            name: self.name@,
            group: opt_seq(self.group),
            expression: opt_seq(self.expression),
        }
    }
}

pub open spec fn reactions_view(s: Seq<CompanionReaction>) -> Seq<ReactionView> {
    s.map_values(|r: CompanionReaction| r@)
}

pub open spec fn motion_kind() -> Seq<char> {
    "motion"@
}

pub open spec fn expression_kind() -> Seq<char> {
    "expression"@
}

pub open spec fn motion_suffix() -> Seq<char> {
    ".motion3.json"@
}

pub open spec fn expression_suffix() -> Seq<char> {
    ".exp3.json"@
}

pub open spec fn motion_reaction(name: Seq<char>, group: Seq<char>) -> ReactionView {
    ReactionView { kind: motion_kind(), name, group: Some(group), expression: None }
}

pub open spec fn expression_reaction(name: Seq<char>, expression: Seq<char>) -> ReactionView {
    ReactionView { kind: expression_kind(), name, group: None, expression: Some(expression) }
}

pub open spec fn clear_reaction() -> ReactionView {
    ReactionView { kind: "clear"@, name: "clear expressions"@, group: None, expression: None }
}

fn text(s: &str) -> (out: String)
    ensures
        out@ == s@,
{
    string_of(&chars_of(s))
}

fn copy_text(s: &String) -> (out: String)
    ensures
        out@ == s@,
{
    s.clone()
}

fn copy_opt(o: &Option<String>) -> (out: Option<String>)
    ensures
        opt_seq(out) == opt_seq(*o),
{
    match o {
        Some(s) => Some(copy_text(s)),
        None => None,
    }
}

fn copy_reaction(r: &CompanionReaction) -> (out: CompanionReaction)
    ensures
        out@ == r@,
{
    CompanionReaction {
        kind: copy_text(&r.kind),
        name: copy_text(&r.name),
        group: copy_opt(&r.group),
        expression: copy_opt(&r.expression),
    }
}

// ---------------------------------------------------------------------------
// Duplicates
// ---------------------------------------------------------------------------

/// Two reactions play the same thing: the same kind, and the same group
/// for motions, the same expression for expressions, the same name
/// otherwise.
pub open spec fn same_reaction(a: ReactionView, b: ReactionView) -> bool {
    a.kind == b.kind && (if a.kind == motion_kind() {
        a.group == b.group
    } else if a.kind == expression_kind() {
        a.expression == b.expression
    } else {
        a.name == b.name
    })
}

/// Whether some reaction of `kept` plays the same thing as `r`.
pub open spec fn has_same(kept: Seq<ReactionView>, r: ReactionView) -> bool {
    exists|j: int| 0 <= j < kept.len() && same_reaction(#[trigger] kept[j], r)
}

/// The reactions with every one that plays the same thing as an earlier
/// one dropped.
pub open spec fn dedup_reactions_spec(s: Seq<ReactionView>) -> Seq<ReactionView>
    decreases s.len(),
{
    if s.len() == 0 {
        Seq::empty()
    } else {
        let r = dedup_reactions_spec(s.drop_last());
        if has_same(r, s.last()) {
            r
        } else {
            r.push(s.last())
        }
    }
}

fn opt_equal(a: &Option<String>, b: &Option<String>) -> (eq: bool)
    ensures
        eq == (opt_seq(*a) == opt_seq(*b)),
{
    match (a, b) {
        (Some(x), Some(y)) => *x == *y,
        (None, None) => true,
        _ => false,
    }
}

fn same_reaction_exec(a: &CompanionReaction, b: &CompanionReaction) -> (eq: bool)
    ensures
        eq == same_reaction(a@, b@),
{
    if a.kind != b.kind {
        return false;
    }
    let kind = chars_of(a.kind.as_str());
    if chars_equal(&kind, &chars_of("motion")) {
        opt_equal(&a.group, &b.group)
    } else if chars_equal(&kind, &chars_of("expression")) {
        opt_equal(&a.expression, &b.expression)
    } else {
        a.name == b.name
    }
}

/// Drops every reaction that plays the same thing as an earlier one (see
/// `dedup_reactions_spec`).
pub fn dedup_reactions(reactions: Vec<CompanionReaction>) -> (out: Vec<CompanionReaction>)
    ensures
        reactions_view(out@) == dedup_reactions_spec(reactions_view(reactions@)),
{
    let mut out: Vec<CompanionReaction> = Vec::new();
    let mut i: usize = 0;
    while i < reactions.len()
        invariant
            i <= reactions.len(),
            reactions_view(out@) == dedup_reactions_spec(reactions_view(reactions@).take(i as int)),
        decreases reactions.len() - i,
    {
        let ghost s = reactions_view(reactions@).take(i + 1);
        assert(s.drop_last() =~= reactions_view(reactions@).take(i as int));
        assert(s.last() == reactions@[i as int]@);
        let mut exists = false;
        let mut k: usize = 0;
        while k < out.len()
            invariant
                k <= out.len(),
                i < reactions.len(),
                exists == (exists|j: int|
                    0 <= j < k && same_reaction(#[trigger] reactions_view(out@)[j], reactions@[i as int]@)),
            decreases out.len() - k,
        {
            if same_reaction_exec(&out[k], &reactions[i]) {
                exists = true;
            }
            proof {
                if exists {
                    if !same_reaction(out@[k as int]@, reactions@[i as int]@) {
                        let j = choose|j: int|
                            0 <= j < k && same_reaction(#[trigger] reactions_view(out@)[j], reactions@[i as int]@);
                        assert(0 <= j < k + 1);
                    } else {
                        assert(same_reaction(reactions_view(out@)[k as int], reactions@[i as int]@));
                    }
                }
            }
            k = k + 1;
        }
        if !exists {
            let ghost before = out@;
            let r = copy_reaction(&reactions[i]);
            out.push(r);
            assert(reactions_view(out@) =~= reactions_view(before).push(reactions@[i as int]@));
        }
        i = i + 1;
    }
    assert(reactions_view(reactions@).take(reactions.len() as int) =~= reactions_view(reactions@));
    out
}

// ---------------------------------------------------------------------------
// Files under a model directory
// ---------------------------------------------------------------------------

/// Whether a directory entry is hidden (its name starts with a dot); the
/// walk of a model directory does not enter or list hidden entries.
pub fn is_hidden_name(name: &str) -> (hidden: bool)
    ensures
        hidden == starts_with(name@, "."@),
{
    let cs = chars_of(name);
    let dot = chars_of(".");
    crate::text::starts_with_exec(&cs, &dot)
}

/// The view of a path given as its components.
pub open spec fn comps_view(v: Vec<String>) -> Seq<Seq<char>> {
    v@.map_values(|s: String| s@)
}

pub open spec fn paths_view(s: Seq<Vec<String>>) -> Seq<Seq<Seq<char>>> {
    s.map_values(|v: Vec<String>| comps_view(v))
}

/// No component of the path is hidden.
pub open spec fn visible(p: Seq<Seq<char>>) -> bool {
    forall|k: int| 0 <= k < p.len() ==> !starts_with(#[trigger] p[k], "."@)
}

/// A file of the walk that counts as a file with `suffix`.
pub open spec fn has_suffix_file(p: Seq<Seq<char>>, suffix: Seq<char>) -> bool {
    p.len() > 0 && visible(p) && ends_with(p.last(), suffix)
}

/// The order of `Path`: component by component, a path before the paths
/// that extend it.
pub open spec fn path_lt(a: Seq<Seq<char>>, b: Seq<Seq<char>>) -> bool
    decreases a.len(),
{
    if a.len() == 0 {
        b.len() > 0
    } else if b.len() == 0 {
        false
    } else if a[0] == b[0] {
        path_lt(a.drop_first(), b.drop_first())
    } else {
        seq_lt(a[0], b[0])
    }
}

pub open spec fn insert_path(s: Seq<Seq<Seq<char>>>, p: Seq<Seq<char>>) -> Seq<Seq<Seq<char>>>
    decreases s.len(),
{
    if s.len() == 0 {
        seq![p]
    } else if path_lt(p, s[0]) {
        seq![p] + s
    } else {
        seq![s[0]] + insert_path(s.drop_first(), p)
    }
}

/// A stable sort of paths (see `path_lt`).
pub open spec fn sort_paths(s: Seq<Seq<Seq<char>>>) -> Seq<Seq<Seq<char>>>
    decreases s.len(),
{
    if s.len() == 0 {
        Seq::empty()
    } else {
        insert_path(sort_paths(s.drop_last()), s.last())
    }
}

pub open spec fn filter_suffix(s: Seq<Seq<Seq<char>>>, suffix: Seq<char>) -> Seq<Seq<Seq<char>>>
    decreases s.len(),
{
    if s.len() == 0 {
        Seq::empty()
    } else {
        let r = filter_suffix(s.drop_last(), suffix);
        if has_suffix_file(s.last(), suffix) {
            r.push(s.last())
        } else {
            r
        }
    }
}

/// The visible files of the walk whose name ends with `suffix`, sorted.
pub open spec fn collect_spec(files: Seq<Seq<Seq<char>>>, suffix: Seq<char>) -> Seq<Seq<Seq<char>>> {
    sort_paths(filter_suffix(files, suffix))
}

fn copy_path(p: &Vec<String>) -> (out: Vec<String>)
    ensures
        comps_view(out) == comps_view(*p),
{
    let mut out: Vec<String> = Vec::new();
    let mut i: usize = 0;
    while i < p.len()
        invariant
            i <= p.len(),
            comps_view(out) == comps_view(*p).take(i as int),
        decreases p.len() - i,
    {
        let ghost before = out@;
        let t = copy_text(&p[i]);
        out.push(t);
        assert(out@ == before.push(t));
        assert(comps_view(out) =~= before.map_values(|s: String| s@).push(t@));
        assert(comps_view(out) =~= comps_view(*p).take(i + 1));
        i = i + 1;
    }
    assert(comps_view(*p).take(p.len() as int) =~= comps_view(*p));
    out
}

fn has_suffix_file_exec(p: &Vec<String>, suffix: &Vec<char>) -> (b: bool)
    ensures
        b == has_suffix_file(comps_view(*p), suffix@),
{
    if p.len() == 0 {
        return false;
    }
    let mut k: usize = 0;
    while k < p.len()
        invariant
            k <= p.len(),
            forall|j: int| 0 <= j < k ==> !starts_with(#[trigger] comps_view(*p)[j], "."@),
        decreases p.len() - k,
    {
        if is_hidden_name(p[k].as_str()) {
            assert(starts_with(comps_view(*p)[k as int], "."@));
            return false;
        }
        k = k + 1;
    }
    let last = chars_of(p[p.len() - 1].as_str());
    ends_with_exec(&last, suffix)
}

fn seq_lt_strings(a: &String, b: &String) -> (lt: bool)
    ensures
        lt == seq_lt(a@, b@),
{
    crate::models::seq_lt_chars(&chars_of(a.as_str()), &chars_of(b.as_str()))
}

fn path_lt_exec(a: &Vec<String>, b: &Vec<String>) -> (lt: bool)
    ensures
        lt == path_lt(comps_view(*a), comps_view(*b)),
{
    let ghost av = comps_view(*a);
    let ghost bv = comps_view(*b);
    let mut i: usize = 0;
    assert(av.skip(0) =~= av);
    assert(bv.skip(0) =~= bv);
    while i < a.len() && i < b.len()
        invariant
            i <= a.len(),
            i <= b.len(),
            av == comps_view(*a),
            bv == comps_view(*b),
            path_lt(av, bv) == path_lt(av.skip(i as int), bv.skip(i as int)),
        decreases a.len() - i,
    {
        assert(av.skip(i as int)[0] == a@[i as int]@);
        assert(bv.skip(i as int)[0] == b@[i as int]@);
        if a[i] != b[i] {
            let r = seq_lt_strings(&a[i], &b[i]);
            assert(av.skip(i as int).len() > 0 && bv.skip(i as int).len() > 0);
            assert(r == path_lt(av.skip(i as int), bv.skip(i as int)));
            return r;
        }
        assert(av.skip(i as int).drop_first() =~= av.skip(i + 1));
        assert(bv.skip(i as int).drop_first() =~= bv.skip(i + 1));
        i = i + 1;
    }
    a.len() - i < b.len() - i
}

proof fn lemma_insert_path_at(s: Seq<Seq<Seq<char>>>, p: Seq<Seq<char>>, k: int)
    requires
        0 <= k <= s.len(),
        forall|j: int| 0 <= j < k ==> !path_lt(p, #[trigger] s[j]),
        k == s.len() || path_lt(p, s[k]),
    ensures
        insert_path(s, p) == s.insert(k, p),
    decreases k,
{
    if k == 0 {
        if s.len() == 0 {
            assert(s.insert(0, p) =~= seq![p]);
        } else {
            assert(s.insert(0, p) =~= seq![p] + s);
        }
    } else {
        let t = s.drop_first();
        assert forall|j: int| 0 <= j < k - 1 implies !path_lt(p, #[trigger] t[j]) by {
            assert(t[j] == s[j + 1]);
        }
        if k < s.len() {
            assert(t[k - 1] == s[k]);
        }
        lemma_insert_path_at(t, p, k - 1);
        assert(seq![s[0]] + t.insert(k - 1, p) =~= s.insert(k, p));
    }
}

/// The visible files of a model directory whose name ends with `suffix`,
/// sorted as paths.  `files` are the files of the walk of the directory,
/// each as its components relative to the directory.
pub fn collect_files_with_suffix(files: &Vec<Vec<String>>, suffix: &str) -> (out: Vec<Vec<String>>)
    ensures
        paths_view(out@) == collect_spec(paths_view(files@), suffix@),
{
    let sfx = chars_of(suffix);
    let mut kept: Vec<Vec<String>> = Vec::new();
    let mut i: usize = 0;
    while i < files.len()
        invariant
            i <= files.len(),
            sfx@ == suffix@,
            paths_view(kept@) == filter_suffix(paths_view(files@).take(i as int), suffix@),
        decreases files.len() - i,
    {
        assert(paths_view(files@).take(i + 1).drop_last() =~= paths_view(files@).take(i as int));
        if has_suffix_file_exec(&files[i], &sfx) {
            let ghost before = kept@;
            let p = copy_path(&files[i]);
            kept.push(p);
            assert(paths_view(kept@) =~= paths_view(before).push(comps_view(files@[i as int])));
        }
        i = i + 1;
    }
    assert(paths_view(files@).take(files.len() as int) =~= paths_view(files@));
    let mut sorted: Vec<Vec<String>> = Vec::new();
    let mut i: usize = 0;
    while i < kept.len()
        invariant
            i <= kept.len(),
            paths_view(sorted@) == sort_paths(paths_view(kept@).take(i as int)),
        decreases kept.len() - i,
    {
        assert(paths_view(kept@).take(i + 1).drop_last() =~= paths_view(kept@).take(i as int));
        let p = copy_path(&kept[i]);
        let mut k: usize = 0;
        while k < sorted.len() && !path_lt_exec(&p, &sorted[k])
            invariant
                k <= sorted.len(),
                forall|j: int|
                    0 <= j < k ==> !path_lt(comps_view(p), #[trigger] paths_view(sorted@)[j]),
            decreases sorted.len() - k,
        {
            k = k + 1;
        }
        proof {
            lemma_insert_path_at(paths_view(sorted@), comps_view(p), k as int);
        }
        let ghost before = sorted@;
        let ghost pv = comps_view(p);
        sorted.insert(k, p);
        assert(paths_view(sorted@) =~= paths_view(before).insert(k as int, pv));
        i = i + 1;
    }
    assert(paths_view(kept@).take(kept.len() as int) =~= paths_view(kept@));
    sorted
}


// ---------------------------------------------------------------------------
// Model files named by hotkeys
// ---------------------------------------------------------------------------

/// A path given as components, written with `/` between them.
pub open spec fn path_text(p: Seq<Seq<char>>) -> Seq<char> {
    join(p, "/"@)
}

/// The first path whose last component is `name`.
pub open spec fn first_named(ps: Seq<Seq<Seq<char>>>, name: Seq<char>) -> Option<Seq<Seq<char>>>
    decreases ps.len(),
{
    if ps.len() == 0 {
        None
    } else {
        match first_named(ps.drop_last(), name) {
            Some(p) => Some(p),
            None => if ps.last().len() > 0 && ps.last().last() == name {
                Some(ps.last())
            } else {
                None
            },
        }
    }
}

/// The model file that a hotkey names: nothing unless the name ends with
/// `suffix`; the name itself when it is a file directly under the model
/// directory (`direct`); else the first file of the walk with that name
/// and suffix, in path order.
pub open spec fn relative_model_file_spec(
    file_name: Seq<char>,
    suffix: Seq<char>,
    direct: bool,
    files: Seq<Seq<Seq<char>>>,
) -> Option<Seq<char>> {
    if file_name.len() == 0 || !ends_with(file_name, suffix) {
        None
    } else if direct {
        Some(file_name)
    } else {
        match first_named(collect_spec(files, suffix), file_name) {
            Some(p) => Some(path_text(p)),
            None => None,
        }
    }
}

fn join_path(p: &Vec<String>) -> (out: String)
    ensures
        out@ == path_text(comps_view(*p)),
{
    let mut parts: Vec<Vec<char>> = Vec::new();
    let mut i: usize = 0;
    while i < p.len()
        invariant
            i <= p.len(),
            views(parts@) == comps_view(*p).take(i as int),
        decreases p.len() - i,
    {
        let ghost before = parts@;
        let c = chars_of(p[i].as_str());
        parts.push(c);
        assert(views(parts@) =~= views(before).push(c@));
        assert(comps_view(*p).take(i + 1) =~= comps_view(*p).take(i as int).push(p@[i as int]@));
        i = i + 1;
    }
    assert(comps_view(*p).take(p.len() as int) =~= comps_view(*p));
    let sep = chars_of("/");
    string_of(&join_exec(&parts, &sep))
}

proof fn lemma_first_named_at(ps: Seq<Seq<Seq<char>>>, name: Seq<char>, k: int)
    requires
        0 <= k < ps.len(),
        ps[k].len() > 0 && ps[k].last() == name,
        first_named(ps.take(k), name) is None,
    ensures
        first_named(ps, name) == Some(ps[k]),
    decreases ps.len(),
{
    if k == ps.len() - 1 {
        assert(ps.drop_last() =~= ps.take(k));
    } else {
        assert(ps.drop_last().take(k) =~= ps.take(k));
        lemma_first_named_at(ps.drop_last(), name, k);
    }
}

/// The model file that a hotkey names (see `relative_model_file_spec`).
/// `direct` says whether `file_name` is a file directly under the model
/// directory; `files` are the files of the walk of the directory.
pub fn relative_model_file(file_name: &str, suffix: &str, direct: bool, files: &Vec<Vec<String>>) -> (res: Option<String>)
    ensures
        opt_seq(res) == relative_model_file_spec(file_name@, suffix@, direct, paths_view(files@)),
{
    let name = chars_of(file_name);
    let sfx = chars_of(suffix);
    if name.len() == 0 || !ends_with_exec(&name, &sfx) {
        return None;
    }
    if direct {
        return Some(string_of(&name));
    }
    let found = collect_files_with_suffix(files, suffix);
    let ghost ps = paths_view(found@);
    let mut k: usize = 0;
    while k < found.len()
        invariant
            k <= found.len(),
            ps == paths_view(found@),
            ps == collect_spec(paths_view(files@), suffix@),
            !direct,
            name@ == file_name@,
            name@.len() > 0,
            ends_with(name@, suffix@),
            first_named(ps.take(k as int), name@) is None,
        decreases found.len() - k,
    {
        assert(ps.take(k + 1).drop_last() =~= ps.take(k as int));
        let p = &found[k];
        if p.len() > 0 {
            let last = chars_of(p[p.len() - 1].as_str());
            if chars_equal(&last, &name) {
                proof {
                    assert(ps[k as int] == comps_view(*p));
                    assert(ps[k as int].last() == last@);
                    lemma_first_named_at(ps, name@, k as int);
                }
                return Some(join_path(p));
            }
        }
        proof {
            assert(ps[k as int] == comps_view(found@[k as int]));
        }
        k = k + 1;
    }
    assert(ps.take(found.len() as int) =~= ps);
    None
}

/// The name of a model asset: the file name of `path` without its trailing
/// copies of `suffix`.
pub open spec fn asset_stem(path: Seq<char>, suffix: Seq<char>) -> Seq<char> {
    let name = match file_name_of(path) {
        Some(n) => n,
        None => Seq::empty(),
    };
    trim_end_all(name, suffix)
}

/// The name of a model asset (see `asset_stem`).
pub fn model_asset_stem(path: &str, suffix: &str) -> (stem: String)
    ensures
        stem@ == asset_stem(path@, suffix@),
{
    let name = match path_file_name(path) {
        Some(n) => chars_of(n.as_str()),
        None => Vec::new(),
    };
    let sfx = chars_of(suffix);
    string_of(&trim_end_all_exec(&name, &sfx))
}

// ---------------------------------------------------------------------------
// VTube Studio hotkeys
// ---------------------------------------------------------------------------

/// A hotkey of a VTube Studio settings file: its `Action`, `File` and
/// `Name`, each `None` when missing or not a string.
#[derive(Debug, Clone)]
pub struct VtubeHotkey {
    pub action: Option<String>,
    pub file: Option<String>,
    pub name: Option<String>,
}

pub type HotkeyView = (Option<Seq<char>>, Option<Seq<char>>, Option<Seq<char>>);

pub open spec fn hotkey_view(h: VtubeHotkey) -> HotkeyView {
    (opt_seq(h.action), opt_seq(h.file), opt_seq(h.name))
}

pub open spec fn hotkeys_view(s: Seq<VtubeHotkey>) -> Seq<HotkeyView> {
    s.map_values(|h: VtubeHotkey| hotkey_view(h))
}

/// The hotkeys of a VTube Studio settings document: for each element of
/// its `Hotkeys` array, the `Action`, `File` and `Name` members that are
/// strings; `None` when it has no `Hotkeys` array.
pub open spec fn settings_hotkeys(doc: JsonView) -> Option<Seq<HotkeyView>> {
    match json_member(doc, "Hotkeys"@) {
        Some(JsonView::Array(items)) => Some(items.map_values(|h: JsonView| hotkey_of(h))),
        _ => None,
    }
}

/// The `Action`, `File` and `Name` members of a hotkey that are strings.
pub open spec fn hotkey_of(h: JsonView) -> HotkeyView {
    (member_text(h, "Action"@), member_text(h, "File"@), member_text(h, "Name"@))
}

/// The hotkeys of a VTube Studio settings text: none when the text is not
/// JSON or has no `Hotkeys` array.
pub open spec fn hotkeys_of_text(text: Seq<char>) -> Seq<HotkeyView> {
    match json_parse_of(text) {
        Ok(doc) => match settings_hotkeys(doc) {
            Some(h) => h,
            None => Seq::empty(),
        },
        Err(_) => Seq::empty(),
    }
}

/// The hotkeys of a VTube Studio settings document (see
/// `settings_hotkeys`).
pub fn vtube_hotkeys(doc: &Json) -> (res: Option<Vec<VtubeHotkey>>)
    ensures
        match res {
            Some(v) => settings_hotkeys(doc@) == Some(hotkeys_view(v@)),
            None => settings_hotkeys(doc@) is None,
        },
{
    match get_member(doc, "Hotkeys") {
        Some(Json::Array(items)) => {
            let ghost iv = match json_member(doc@, "Hotkeys"@) {
                Some(JsonView::Array(v)) => v,
                _ => Seq::empty(),
            };
            assert(iv.len() == items@.len());
            assert(forall|j: int| 0 <= j < items@.len() ==> #[trigger] iv[j] == items@[j]@);
            let ghost want = iv.map_values(|h: JsonView| hotkey_of(h));
            let mut out: Vec<VtubeHotkey> = Vec::new();
            let mut i: usize = 0;
            while i < items.len()
                invariant
                    i <= items.len(),
                    iv.len() == items@.len(),
                    forall|j: int| 0 <= j < items@.len() ==> #[trigger] iv[j] == items@[j]@,
                    want == iv.map_values(|h: JsonView| hotkey_of(h)),
                    hotkeys_view(out@) == want.take(i as int),
                decreases items.len() - i,
            {
                let h = &items[i];
                let hk = VtubeHotkey {
                    action: get_member_text(h, "Action"),
                    file: get_member_text(h, "File"),
                    name: get_member_text(h, "Name"),
                };
                let ghost before = out@;
                out.push(hk);
                assert(iv[i as int] == items@[i as int]@);
                assert(hotkeys_view(out@) =~= hotkeys_view(before).push(hotkey_view(hk)));
                assert(want.take(i + 1) =~= want.take(i as int).push(want[i as int]));
                i = i + 1;
            }
            assert(want.take(items.len() as int) =~= want);
            Some(out)
        },
        _ => None,
    }
}

/// The hotkeys of a VTube Studio settings text (see `hotkeys_of_text`).
pub fn vtube_settings_hotkeys(text: &str) -> (out: Vec<VtubeHotkey>)
    ensures
        hotkeys_view(out@) == hotkeys_of_text(text@),
{
    match parse_json(text) {
        Ok(doc) => match vtube_hotkeys(&doc) {
            Some(h) => h,
            None => {
                let v: Vec<VtubeHotkey> = Vec::new();
                assert(hotkeys_view(v@) =~= Seq::<HotkeyView>::empty());
                v
            },
        },
        Err(_) => {
            let v: Vec<VtubeHotkey> = Vec::new();
            assert(hotkeys_view(v@) =~= Seq::<HotkeyView>::empty());
            v
        },
    }
}

pub open spec fn or_empty(o: Option<Seq<char>>) -> Seq<char> {
    match o {
        Some(s) => s,
        None => Seq::empty(),
    }
}

/// The reaction a hotkey stands for: an animation trigger whose motion file
/// exists plays its motion group (the file without the suffix); an
/// expression toggle whose expression file exists shows the expression
/// (the file's name without the suffix); removing all expressions clears
/// them; the hotkey's name is used when it has one.
pub open spec fn hotkey_reaction(h: HotkeyView, direct: bool, files: Seq<Seq<Seq<char>>>) -> Option<ReactionView> {
    let action = or_empty(h.0);
    let file = or_empty(h.1);
    let name = or_empty(h.2);
    if action == "TriggerAnimation"@ {
        match relative_model_file_spec(file, motion_suffix(), direct, files) {
            Some(_) => {
                let group = trim_end_all(file, motion_suffix());
                Some(motion_reaction(if name.len() == 0 { group } else { name }, group))
            },
            None => None,
        }
    } else if action == "ToggleExpression"@ {
        match relative_model_file_spec(file, expression_suffix(), direct, files) {
            Some(f) => {
                let e = asset_stem(f, expression_suffix());
                Some(expression_reaction(if name.len() == 0 { e } else { name }, e))
            },
            None => None,
        }
    } else if action == "RemoveAllExpressions"@ {
        Some(clear_reaction())
    } else {
        None
    }
}

/// The reactions of the hotkeys, in order.
pub open spec fn hotkey_reactions(hs: Seq<HotkeyView>, direct: Seq<bool>, files: Seq<Seq<Seq<char>>>) -> Seq<ReactionView>
    decreases hs.len(),
{
    if hs.len() == 0 {
        Seq::empty()
    } else {
        let r = hotkey_reactions(hs.drop_last(), direct, files);
        match hotkey_reaction(hs.last(), direct[hs.len() - 1], files) {
            Some(x) => r.push(x),
            None => r,
        }
    }
}

fn opt_text(o: &Option<String>) -> (out: Vec<char>)
    ensures
        out@ == or_empty(opt_seq(*o)),
{
    match o {
        Some(s) => chars_of(s.as_str()),
        None => Vec::new(),
    }
}

impl VtubeHotkey {
    /// The file the hotkey names, empty when it names none.
    pub fn file_or_empty(&self) -> (f: String)
        ensures
            f@ == or_empty(opt_seq(self.file)),
    {
        string_of(&opt_text(&self.file))
    }
}

fn hotkey_reaction_exec(h: &VtubeHotkey, direct: bool, files: &Vec<Vec<String>>) -> (res: Option<CompanionReaction>)
    ensures
        match res {
            Some(r) => hotkey_reaction(hotkey_view(*h), direct, paths_view(files@)) == Some(r@),
            None => hotkey_reaction(hotkey_view(*h), direct, paths_view(files@)) is None,
        },
{
    let action = opt_text(&h.action);
    let file_chars = opt_text(&h.file);
    let name = opt_text(&h.name);
    let file = string_of(&file_chars);
    if chars_equal(&action, &chars_of("TriggerAnimation")) {
        match relative_model_file(file.as_str(), ".motion3.json", direct, files) {
            Some(_) => {
                let group = string_of(&trim_end_all_exec(&file_chars, &chars_of(".motion3.json")));
                let shown = if name.len() == 0 {
                    copy_text(&group)
                } else {
                    string_of(&name)
                };
                Some(CompanionReaction { kind: text("motion"), name: shown, group: Some(group), expression: None })
            },
            None => None,
        }
    } else if chars_equal(&action, &chars_of("ToggleExpression")) {
        match relative_model_file(file.as_str(), ".exp3.json", direct, files) {
            Some(f) => {
                let e = model_asset_stem(f.as_str(), ".exp3.json");
                let shown = if name.len() == 0 {
                    copy_text(&e)
                } else {
                    string_of(&name)
                };
                Some(CompanionReaction { kind: text("expression"), name: shown, group: None, expression: Some(e) })
            },
            None => None,
        }
    } else if chars_equal(&action, &chars_of("RemoveAllExpressions")) {
        Some(CompanionReaction { kind: text("clear"), name: text("clear expressions"), group: None, expression: None })
    } else {
        None
    }
}

/// The reactions named by the hotkeys of the model's VTube Studio
/// settings (see `hotkey_reactions`).  `direct[i]` says whether the file
/// that hotkey `i` names is a file directly under the model directory;
/// `files` are the files of the walk of the directory.
pub fn discover_vtube_hotkey_reactions(
    hotkeys: &Vec<VtubeHotkey>,
    direct: &Vec<bool>,
    files: &Vec<Vec<String>>,
) -> (out: Vec<CompanionReaction>)
    requires
        direct.len() == hotkeys.len(),
    ensures
        reactions_view(out@) == hotkey_reactions(hotkeys_view(hotkeys@), direct@, paths_view(files@)),
{
    let ghost hs = hotkeys_view(hotkeys@);
    let mut out: Vec<CompanionReaction> = Vec::new();
    let mut i: usize = 0;
    while i < hotkeys.len()
        invariant
            i <= hotkeys.len(),
            direct.len() == hotkeys.len(),
            hs == hotkeys_view(hotkeys@),
            reactions_view(out@) == hotkey_reactions(hs.take(i as int), direct@, paths_view(files@)),
        decreases hotkeys.len() - i,
    {
        let ghost pre = hs.take(i + 1);
        assert(pre.drop_last() =~= hs.take(i as int));
        assert(pre.last() == hotkey_view(hotkeys@[i as int]));
        match hotkey_reaction_exec(&hotkeys[i], direct[i], files) {
            Some(r) => {
                let ghost before = out@;
                let ghost rv = r@;
                out.push(r);
                assert(reactions_view(out@) =~= reactions_view(before).push(rv));
            },
            None => {},
        }
        i = i + 1;
    }
    assert(hs.take(hotkeys.len() as int) =~= hs);
    out
}

// ---------------------------------------------------------------------------
// All reactions of a model directory
// ---------------------------------------------------------------------------

/// The motion reactions of motion files: each plays the group named after
/// its file.
pub open spec fn motion_file_reactions(ps: Seq<Seq<Seq<char>>>) -> Seq<ReactionView> {
    ps.map_values(|p: Seq<Seq<char>>| {
        let n = asset_stem(path_text(p), motion_suffix());
        motion_reaction(n, n)
    })
}

/// The expression reactions of expression files: each shows the expression
/// named after its file.
pub open spec fn expression_file_reactions(ps: Seq<Seq<Seq<char>>>) -> Seq<ReactionView> {
    ps.map_values(|p: Seq<Seq<char>>| {
        let n = asset_stem(path_text(p), expression_suffix());
        expression_reaction(n, n)
    })
}

/// The reactions of a model directory: those of its hotkeys, then one per
/// motion file, then one per expression file, without repeats.
pub open spec fn discover_reactions_spec(hs: Seq<HotkeyView>, direct: Seq<bool>, files: Seq<Seq<Seq<char>>>) -> Seq<ReactionView> {
    dedup_reactions_spec(
        hotkey_reactions(hs, direct, files) + motion_file_reactions(collect_spec(files, motion_suffix()))
            + expression_file_reactions(collect_spec(files, expression_suffix())),
    )
}

fn file_reactions(files: &Vec<Vec<String>>, motion: bool, out: &mut Vec<CompanionReaction>)
    ensures
        reactions_view(final(out)@) == reactions_view(old(out)@) + (if motion {
            motion_file_reactions(collect_spec(paths_view(files@), motion_suffix()))
        } else {
            expression_file_reactions(collect_spec(paths_view(files@), expression_suffix()))
        }),
{
    let suffix = if motion {
        ".motion3.json"
    } else {
        ".exp3.json"
    };
    let ghost sfx = if motion {
        motion_suffix()
    } else {
        expression_suffix()
    };
    assert(suffix@ == sfx);
    let found = collect_files_with_suffix(files, suffix);
    let ghost ps = paths_view(found@);
    let ghost start = reactions_view(out@);
    let ghost added = if motion {
        motion_file_reactions(ps)
    } else {
        expression_file_reactions(ps)
    };
    let mut k: usize = 0;
    while k < found.len()
        invariant
            k <= found.len(),
            ps == paths_view(found@),
            suffix@ == sfx,
            sfx == (if motion { motion_suffix() } else { expression_suffix() }),
            added == (if motion { motion_file_reactions(ps) } else { expression_file_reactions(ps) }),
            added.len() == ps.len(),
            reactions_view(out@) == start + added.take(k as int),
        decreases found.len() - k,
    {
        let p = join_path(&found[k]);
        let n = model_asset_stem(p.as_str(), suffix);
        let ghost before = out@;
        let r = if motion {
            CompanionReaction { kind: text("motion"), name: copy_text(&n), group: Some(n), expression: None }
        } else {
            CompanionReaction { kind: text("expression"), name: copy_text(&n), group: None, expression: Some(n) }
        };
        let ghost rv = r@;
        out.push(r);
        assert(ps[k as int] == comps_view(found@[k as int]));
        assert(added[k as int] == rv);
        assert(reactions_view(out@) =~= reactions_view(before).push(rv));
        assert(added.take(k + 1) =~= added.take(k as int).push(rv));
        k = k + 1;
    }
    assert(added.take(found.len() as int) =~= added);
}

/// The reactions of a model directory (see `discover_reactions_spec`).
/// `hotkeys` are those of its VTube Studio settings (none without
/// settings), `direct[i]` says whether the file that hotkey `i` names is a
/// file directly under the directory, and `files` are the files of the
/// walk of the directory.
pub fn discover_reactions_in_dir(
    hotkeys: &Vec<VtubeHotkey>,
    direct: &Vec<bool>,
    files: &Vec<Vec<String>>,
) -> (out: Vec<CompanionReaction>)
    requires
        direct.len() == hotkeys.len(),
    ensures
        reactions_view(out@) == discover_reactions_spec(hotkeys_view(hotkeys@), direct@, paths_view(files@)),
{
    let mut all = discover_vtube_hotkey_reactions(hotkeys, direct, files);
    file_reactions(files, true, &mut all);
    file_reactions(files, false, &mut all);
    dedup_reactions(all)
}

/// The VTube Studio settings file of a model directory: the least (in path
/// order) of the entry names ending with `.vtube.json`.
pub open spec fn least_vtube_name(names: Seq<Seq<char>>) -> Option<Seq<char>>
    decreases names.len(),
{
    if names.len() == 0 {
        None
    } else {
        let r = least_vtube_name(names.drop_last());
        let n = names.last();
        if !ends_with(n, ".vtube.json"@) {
            r
        } else {
            match r {
                None => Some(n),
                Some(m) => if seq_lt(n, m) {
                    Some(n)
                } else {
                    Some(m)
                },
            }
        }
    }
}

/// The name of the VTube Studio settings file among the entries of a model
/// directory (see `least_vtube_name`).
pub fn first_vtube_settings_name(names: &Vec<String>) -> (res: Option<String>)
    ensures
        opt_seq(res) == least_vtube_name(names@.map_values(|n: String| n@)),
{
    let ghost ns = names@.map_values(|n: String| n@);
    let suffix = chars_of(".vtube.json");
    let mut best: Option<String> = None;
    let mut i: usize = 0;
    while i < names.len()
        invariant
            i <= names.len(),
            ns == names@.map_values(|n: String| n@),
            suffix@ == ".vtube.json"@,
            opt_seq(best) == least_vtube_name(ns.take(i as int)),
        decreases names.len() - i,
    {
        assert(ns.take(i + 1).drop_last() =~= ns.take(i as int));
        assert(ns.take(i + 1).last() == names@[i as int]@);
        let n = chars_of(names[i].as_str());
        if ends_with_exec(&n, &suffix) {
            best = match best {
                None => Some(copy_text(&names[i])),
                Some(m) => {
                    let mc = chars_of(m.as_str());
                    if crate::models::seq_lt_chars(&n, &mc) {
                        Some(copy_text(&names[i]))
                    } else {
                        Some(m)
                    }
                },
            };
        }
        i = i + 1;
    }
    assert(ns.take(names.len() as int) =~= ns);
    best
}

} // verus!
