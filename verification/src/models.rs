use vstd::prelude::*;

use crate::config::{roots_view, CompanionConfig};
use crate::paths::{
    resolve_config_path, resolve_config_spec, file_name_of, opt_seq, opt_str, parent_of, path_file_name, path_parent, path_strip_prefix,
    paths_equal, same_path, strip_prefix_of,
};
use crate::text::{
    chars_of, contains_exec, contains_seq, ends_with, ends_with_exec, is_ascii_alnum,
    lowercase, replace_char, replace_char_exec, starts_with, starts_with_exec, string_of,
    seq_lt, to_lowercase, trim_end_all, trim_end_all_exec, views, char_is_ascii_alnum,
};

verus! {

// ---------------------------------------------------------------------------
// Models and their abstract view
// ---------------------------------------------------------------------------

/// A Live2D model found on disk.
#[derive(Debug, Clone)]
pub struct CompanionModel {
    pub id: String,
    pub display_name: String,
    pub model_path: String,
    pub folder: String,
    pub source_group: String,
    pub is_default: bool,
}

/// The abstract value of a `CompanionModel`.
pub struct ModelView {
    pub id: Seq<char>,
    pub display_name: Seq<char>,
    pub model_path: Seq<char>,
    pub folder: Seq<char>,
    pub source_group: Seq<char>,
    pub is_default: bool,
}

impl View for CompanionModel {
    type V = ModelView;

    open spec fn view(&self) -> ModelView {
        ModelView {
            id: self.id@,
            display_name: self.display_name@,
            model_path: self.model_path@,
            folder: self.folder@,
            source_group: self.source_group@,
            is_default: self.is_default,
        }
    }
}

pub open spec fn models_view(s: Seq<CompanionModel>) -> Seq<ModelView> {
    s.map_values(|m: CompanionModel| m@)
}

fn copy_string(s: &String) -> (out: String)
    ensures
        out@ == s@,
{
    s.clone()
}

fn copy_model(m: &CompanionModel) -> (out: CompanionModel)
    ensures
        out@ == m@,
{
    CompanionModel {
        id: copy_string(&m.id),
        display_name: copy_string(&m.display_name),
        model_path: copy_string(&m.model_path),
        folder: copy_string(&m.folder),
        source_group: copy_string(&m.source_group),
        is_default: m.is_default,
    }
}

/// The files listed in one directory of a model folder: the directory, and
/// the paths of its entries that are not directories, in the order of the
/// listing. A walk of a model folder gives one listing for the folder and
/// one for each directory beneath it, in the order in which it visits them.
#[derive(Debug)]
pub struct ModelRootListing {
    pub root: String,
    pub files: Vec<String>,
}

pub open spec fn listing_view(l: ModelRootListing) -> (Seq<char>, Seq<Seq<char>>) {
    (l.root@, l.files@.map_values(|f: String| f@))
}

// ---------------------------------------------------------------------------
// Candidates
// ---------------------------------------------------------------------------

pub open spec fn model_suffix() -> Seq<char> {
    ".model3.json"@
}

/// The id of a model: its path relative to the folder it was found in
/// (the whole path when it is not under it), with `/` separators.
pub open spec fn model_id_spec(root: Seq<char>, path: Seq<char>) -> Seq<char> {
    let rel = match strip_prefix_of(path, root) {
        Some(r) => r,
        None => path,
    };
    replace_char(rel, '\\', '/')
}

/// The model described by a file found under `root`, if it is a
/// `.model3.json` file: named after the file without that suffix (with
/// spaces for underscores), grouped by its parent folder, and marked
/// default when it is the configured default model.
pub open spec fn model_candidate(
    root: Seq<char>,
    path: Seq<char>,
    default_model: Option<Seq<char>>,
) -> Option<ModelView> {
    match file_name_of(path) {
        None => None,
        Some(name) => if !ends_with(name, model_suffix()) {
            None
        } else {
            Some(
                ModelView {
                    id: model_id_spec(root, path),
                    display_name: replace_char(trim_end_all(name, model_suffix()), '_', ' '),
                    model_path: path,
                    folder: match parent_of(path) {
                        Some(p) => p,
                        None => root,
                    },
                    source_group: "local"@,
                    is_default: match default_model {
                        Some(d) => paths_equal(path, d),
                        None => false,
                    },
                },
            )
        },
    }
}

/// The models among the files of one folder, in the order of the files.
pub open spec fn root_candidates(
    root: Seq<char>,
    files: Seq<Seq<char>>,
    default_model: Option<Seq<char>>,
) -> Seq<ModelView>
    decreases files.len(),
{
    if files.len() == 0 {
        Seq::empty()
    } else {
        let r = root_candidates(root, files.drop_last(), default_model);
        match model_candidate(root, files.last(), default_model) {
            Some(m) => r.push(m),
            None => r,
        }
    }
}

/// The models of all folders, folder after folder.
pub open spec fn all_candidates(
    roots: Seq<(Seq<char>, Seq<Seq<char>>)>,
    default_model: Option<Seq<char>>,
) -> Seq<ModelView>
    decreases roots.len(),
{
    if roots.len() == 0 {
        Seq::empty()
    } else {
        all_candidates(roots.drop_last(), default_model) + root_candidates(
            roots.last().0,
            roots.last().1,
            default_model,
        )
    }
}

/// The id of a model (see `model_id_spec`).
pub fn model_id_from_path(root: &str, path: &str) -> (id: String)
    ensures
        id@ == model_id_spec(root@, path@),
{
    let rel = match path_strip_prefix(path, root) {
        Some(r) => r,
        None => string_of(&chars_of(path)),
    };
    let cs = chars_of(rel.as_str());
    string_of(&replace_char_exec(&cs, '\\', '/'))
}

fn model_candidate_exec(root: &str, path: &str, default_model: Option<&str>) -> (res: Option<
    CompanionModel,
>)
    ensures
        match res {
            Some(m) => model_candidate(root@, path@, opt_str(default_model)) == Some(m@),
            None => model_candidate(root@, path@, opt_str(default_model)) is None,
        },
{
    let name = match path_file_name(path) {
        Some(n) => n,
        None => {
            return None;
        },
    };
    let name_chars = chars_of(name.as_str());
    let suffix = chars_of(".model3.json");
    if !ends_with_exec(&name_chars, &suffix) {
        return None;
    }
    let folder = match path_parent(path) {
        Some(p) => p,
        None => string_of(&chars_of(root)),
    };
    let stem = trim_end_all_exec(&name_chars, &suffix);
    let display_name = string_of(&replace_char_exec(&stem, '_', ' '));
    let is_default = match default_model {
        Some(d) => same_path(path, d),
        None => false,
    };
    let m = CompanionModel {
        id: model_id_from_path(root, path),
        display_name,
        model_path: string_of(&chars_of(path)),
        folder,
        source_group: string_of(&chars_of("local")),
        is_default,
    };
    Some(m)
}

// ---------------------------------------------------------------------------
// Preference between the models of one folder
// ---------------------------------------------------------------------------

/// The ASCII letters and digits of `s`, in order.
pub open spec fn keep_alnum(s: Seq<char>) -> Seq<char>
    decreases s.len(),
{
    if s.len() == 0 {
        Seq::empty()
    } else {
        let r = keep_alnum(s.drop_last());
        if is_ascii_alnum(s.last()) {
            r.push(s.last())
        } else {
            r
        }
    }
}

/// `str::split` on every character that is not an ASCII letter or digit:
/// the pieces between such characters, empty ones included.
pub open spec fn alnum_pieces(s: Seq<char>) -> Seq<Seq<char>>
    decreases s.len(),
{
    if s.len() == 0 {
        seq![Seq::empty()]
    } else {
        let p = alnum_pieces(s.drop_last());
        let c = s.last();
        if !is_ascii_alnum(c) {
            p.push(Seq::empty())
        } else {
            p.update(p.len() - 1, p.last().push(c))
        }
    }
}

/// The first piece longer than two characters.
pub open spec fn first_long_piece(pieces: Seq<Seq<char>>) -> Option<Seq<char>>
    decreases pieces.len(),
{
    if pieces.len() == 0 {
        None
    } else {
        match first_long_piece(pieces.drop_last()) {
            Some(t) => Some(t),
            None => if pieces.last().len() > 2 {
                Some(pieces.last())
            } else {
                None
            },
        }
    }
}

/// The score of a model name against the name of its folder, both reduced
/// to ASCII letters and digits: the name's length up to 40; 80 more when
/// the two are equal, else 40 when the folder name occurs in it, else 20
/// when the folder name's first piece longer than two characters does;
/// 100 less for `model`, 80 less for names that start with `modelv` or end
/// with `v1`, 50 less for names holding `copy` or `backup`.
pub open spec fn name_score(name: Seq<char>, folder: Seq<char>) -> int {
    let base: int = if name.len() < 40 {
        name.len() as int
    } else {
        40
    };
    let bonus: int = if name == folder {
        80
    } else if folder.len() > 0 && contains_seq(name, folder) {
        40
    } else {
        match first_long_piece(alnum_pieces(folder)) {
            Some(t) => if contains_seq(name, t) {
                20
            } else {
                0
            },
            None => 0,
        }
    };
    let generic: int = if name == "model"@ {
        100
    } else {
        0
    };
    let versioned: int = if starts_with(name, "modelv"@) || ends_with(name, "v1"@) {
        80
    } else {
        0
    };
    let copied: int = if contains_seq(name, "copy"@) || contains_seq(name, "backup"@) {
        50
    } else {
        0
    };
    base + bonus - generic - versioned - copied
}

/// The score by which one model of a folder is preferred to another: 10000
/// for the default model; otherwise the score of its lowercased name
/// against the lowercased name of its folder (see `name_score`).
pub open spec fn preference_score(m: ModelView) -> int {
    if m.is_default {
        10000
    } else {
        name_score(
            keep_alnum(lowercase(m.display_name)),
            keep_alnum(lowercase(folder_file_name(m))),
        )
    }
}

/// The name of a model's folder (empty when its path has none).
pub open spec fn folder_file_name(m: ModelView) -> Seq<char> {
    match file_name_of(m.folder) {
        Some(f) => f,
        None => Seq::empty(),
    }
}

/// The ASCII letters and digits of `value`, in order.
pub fn normalize_model_name(value: &str) -> (out: String)
    ensures
        out@ == keep_alnum(value@),
{
    let cs = chars_of(value);
    string_of(&keep_alnum_exec(&cs))
}

fn keep_alnum_exec(s: &Vec<char>) -> (out: Vec<char>)
    ensures
        out@ == keep_alnum(s@),
{
    let mut out: Vec<char> = Vec::new();
    let mut i: usize = 0;
    while i < s.len()
        invariant
            i <= s.len(),
            out@ == keep_alnum(s@.take(i as int)),
        decreases s.len() - i,
    {
        assert(s@.take(i + 1).drop_last() =~= s@.take(i as int));
        let c = s[i];
        if char_is_ascii_alnum(c) {
            out.push(c);
        }
        i = i + 1;
    }
    assert(s@.take(s.len() as int) =~= s@);
    out
}

fn first_long_piece_exec(s: &Vec<char>) -> (res: Option<Vec<char>>)
    ensures
        match res {
            Some(t) => first_long_piece(alnum_pieces(s@)) == Some(t@),
            None => first_long_piece(alnum_pieces(s@)) is None,
        },
{
    let mut done: Vec<Vec<char>> = Vec::new();
    let mut cur: Vec<char> = Vec::new();
    let mut i: usize = 0;
    assert(alnum_pieces(s@.take(0)) =~= views(done@).push(cur@));
    while i < s.len()
        invariant
            i <= s.len(),
            alnum_pieces(s@.take(i as int)) == views(done@).push(cur@),
        decreases s.len() - i,
    {
        assert(s@.take(i + 1).drop_last() =~= s@.take(i as int));
        let c = s[i];
        if !char_is_ascii_alnum(c) {
            let ghost before = views(done@);
            let finished = cur;
            done.push(finished);
            cur = Vec::new();
            assert(views(done@) =~= before.push(finished@));
            assert(alnum_pieces(s@.take(i + 1)) =~= views(done@).push(cur@));
        } else {
            let ghost before = cur@;
            cur.push(c);
            assert(alnum_pieces(s@.take(i + 1)) =~= views(done@).push(cur@));
        }
        i = i + 1;
    }
    assert(s@.take(s.len() as int) =~= s@);
    let ghost pieces = views(done@).push(cur@);
    let mut k: usize = 0;
    while k < done.len()
        invariant
            k <= done.len(),
            pieces == views(done@).push(cur@),
            pieces == alnum_pieces(s@),
            first_long_piece(pieces.take(k as int)) is None,
        decreases done.len() - k,
    {
        assert(pieces.take(k + 1).drop_last() =~= pieces.take(k as int));
        if done[k].len() > 2 {
            let t = copy_chars(&done[k]);
            proof {
                assert(pieces[k as int] == done@[k as int]@);
                lemma_first_long_piece_at(pieces, k as int);
            }
            return Some(t);
        }
        k = k + 1;
    }
    assert(pieces.take(done.len() + 1) =~= pieces);
    assert(pieces.take(done.len() + 1).drop_last() =~= pieces.take(done.len() as int));
    if cur.len() > 2 {
        Some(cur)
    } else {
        None
    }
}

fn copy_chars(s: &Vec<char>) -> (out: Vec<char>)
    ensures
        out@ == s@,
{
    let out = s.clone();
    assert(out@ =~= s@);
    out
}

proof fn lemma_first_long_piece_at(pieces: Seq<Seq<char>>, k: int)
    requires
        0 <= k < pieces.len(),
        pieces[k].len() > 2,
        first_long_piece(pieces.take(k)) is None,
    ensures
        first_long_piece(pieces) == Some(pieces[k]),
    decreases pieces.len(),
{
    if k == pieces.len() - 1 {
        assert(pieces.drop_last() =~= pieces.take(k));
    } else {
        assert(pieces.drop_last().take(k) =~= pieces.take(k));
        lemma_first_long_piece_at(pieces.drop_last(), k);
    }
}

fn lowercase_chars(s: &String) -> (out: Vec<char>)
    ensures
        out@ == lowercase(s@),
{
    let l = to_lowercase(s.as_str());
    chars_of(l.as_str())
}

fn lit(s: &str) -> (out: Vec<char>)
    ensures
        out@ == s@,
{
    chars_of(s)
}

/// The score of a model name against its folder name (see `name_score`).
fn name_score_exec(name: &Vec<char>, folder: &Vec<char>) -> (score: i32)
    ensures
        score as int == name_score(name@, folder@),
{
    let base: i32 = if name.len() < 40 {
        name.len() as i32
    } else {
        40
    };
    let bonus: i32 = if crate::text::chars_equal(name, folder) {
        80
    } else if folder.len() > 0 && contains_exec(name, folder) {
        40
    } else {
        match first_long_piece_exec(folder) {
            Some(t) => if contains_exec(name, &t) {
                20
            } else {
                0
            },
            None => 0,
        }
    };
    let generic: i32 = if crate::text::chars_equal(name, &lit("model")) {
        100
    } else {
        0
    };
    let versioned: i32 = if starts_with_exec(name, &lit("modelv")) || ends_with_exec(
        name,
        &lit("v1"),
    ) {
        80
    } else {
        0
    };
    let copied: i32 = if contains_exec(name, &lit("copy")) || contains_exec(name, &lit("backup")) {
        50
    } else {
        0
    };
    base + bonus - generic - versioned - copied
}

/// The score by which a model is preferred to the others of its folder
/// (see `preference_score`).
pub fn model_preference_score(model: &CompanionModel) -> (score: i32)
    ensures
        score as int == preference_score(model@),
{
    if model.is_default {
        return 10000;
    }
    let name = keep_alnum_exec(&lowercase_chars(&model.display_name));
    let folder_name = match path_file_name(model.folder.as_str()) {
        Some(f) => f,
        None => string_of(&Vec::new()),
    };
    let folder = keep_alnum_exec(&lowercase_chars(&folder_name));
    proof {
        assert(folder_name@ == match file_name_of(model.folder@) {
            Some(f) => f,
            None => Seq::<char>::empty(),
        });
    }
    name_score_exec(&name, &folder)
}


// ---------------------------------------------------------------------------
// One model per folder
// ---------------------------------------------------------------------------

/// The index of the last model of `g` in `folder`, or -1.
pub open spec fn folder_index(g: Seq<ModelView>, folder: Seq<char>) -> int
    decreases g.len(),
{
    if g.len() == 0 {
        -1
    } else if g.last().folder == folder {
        g.len() - 1
    } else {
        folder_index(g.drop_last(), folder)
    }
}

/// The candidates reduced to one per folder, in the order in which the
/// folders first appear: each folder keeps its first candidate of highest
/// preference score.
pub open spec fn group_by_folder(c: Seq<ModelView>) -> Seq<ModelView>
    decreases c.len(),
{
    if c.len() == 0 {
        Seq::empty()
    } else {
        let g = group_by_folder(c.drop_last());
        let m = c.last();
        let i = folder_index(g, m.folder);
        if i < 0 {
            g.push(m)
        } else if preference_score(m) > preference_score(g[i]) {
            g.update(i, m)
        } else {
            g
        }
    }
}

pub proof fn lemma_folder_index(g: Seq<ModelView>, folder: Seq<char>)
    ensures
        -1 <= folder_index(g, folder) < g.len(),
        folder_index(g, folder) >= 0 ==> g[folder_index(g, folder)].folder == folder,
        folder_index(g, folder) < 0 ==> forall|j: int| 0 <= j < g.len() ==> g[j].folder != folder,
    decreases g.len(),
{
    if g.len() > 0 {
        lemma_folder_index(g.drop_last(), folder);
        if g.last().folder != folder {
            assert forall|j: int| 0 <= j < g.len() - 1 implies g[j] == g.drop_last()[j] by {}
        }
    }
}

fn folder_index_exec(g: &Vec<CompanionModel>, folder: &String) -> (res: Option<usize>)
    ensures
        match res {
            Some(i) => i < g.len() && folder_index(models_view(g@), folder@) == i,
            None => folder_index(models_view(g@), folder@) < 0,
        },
{
    let mut k = g.len();
    assert(models_view(g@).take(k as int) =~= models_view(g@));
    while k > 0
        invariant
            k <= g.len(),
            folder_index(models_view(g@), folder@) == folder_index(
                models_view(g@).take(k as int),
                folder@,
            ),
        decreases k,
    {
        let ghost pre = models_view(g@).take(k as int);
        assert(pre.drop_last() =~= models_view(g@).take(k - 1));
        if g[k - 1].folder == *folder {
            return Some(k - 1);
        }
        k = k - 1;
    }
    None
}

/// One model per folder (see `group_by_folder`).
fn group_by_folder_exec(cands: &Vec<CompanionModel>) -> (out: Vec<CompanionModel>)
    ensures
        models_view(out@) == group_by_folder(models_view(cands@)),
{
    let mut groups: Vec<CompanionModel> = Vec::new();
    let mut i: usize = 0;
    while i < cands.len()
        invariant
            i <= cands.len(),
            models_view(groups@) == group_by_folder(models_view(cands@).take(i as int)),
        decreases cands.len() - i,
    {
        assert(models_view(cands@).take(i + 1).drop_last() =~= models_view(cands@).take(
            i as int,
        ));
        let m = copy_model(&cands[i]);
        proof {
            lemma_folder_index(models_view(groups@), m@.folder);
        }
        match folder_index_exec(&groups, &m.folder) {
            None => {
                let ghost before = groups@;
                groups.push(m);
                assert(models_view(groups@) =~= models_view(before).push(m@));
            },
            Some(j) => {
                if model_preference_score(&m) > model_preference_score(&groups[j]) {
                    let ghost before = groups@;
                    let ghost mv = m@;
                    groups.set(j, m);
                    assert(models_view(groups@) =~= models_view(before).update(j as int, mv));
                }
            },
        }
        i = i + 1;
    }
    assert(models_view(cands@).take(cands.len() as int) =~= models_view(cands@));
    groups
}

// ---------------------------------------------------------------------------
// Order
// ---------------------------------------------------------------------------

/// The order of the model list: default models first, then by lowercased
/// display name, then by path.
pub open spec fn model_before(a: ModelView, b: ModelView) -> bool {
    let la = lowercase(a.display_name);
    let lb = lowercase(b.display_name);
    (a.is_default && !b.is_default) || (a.is_default == b.is_default && (seq_lt(la, lb) || (la
        == lb && seq_lt(a.model_path, b.model_path))))
}

/// `m` inserted into `s` before the first model that it sorts before.
pub open spec fn insert_model(s: Seq<ModelView>, m: ModelView) -> Seq<ModelView>
    decreases s.len(),
{
    if s.len() == 0 {
        seq![m]
    } else if model_before(m, s[0]) {
        seq![m] + s
    } else {
        seq![s[0]] + insert_model(s.drop_first(), m)
    }
}

/// A stable sort of the models (see `model_before`).
pub open spec fn sort_models(s: Seq<ModelView>) -> Seq<ModelView>
    decreases s.len(),
{
    if s.len() == 0 {
        Seq::empty()
    } else {
        insert_model(sort_models(s.drop_last()), s.last())
    }
}

/// Runs of consecutive models with the same path reduced to their first.
pub open spec fn dedup_paths(s: Seq<ModelView>) -> Seq<ModelView>
    decreases s.len(),
{
    if s.len() == 0 {
        Seq::empty()
    } else {
        let r = dedup_paths(s.drop_last());
        if r.len() > 0 && r.last().model_path == s.last().model_path {
            r
        } else {
            r.push(s.last())
        }
    }
}

/// The models found in the listed folders: one per folder (the preferred
/// one), sorted, with repeated paths dropped.
pub open spec fn discover_spec(
    roots: Seq<(Seq<char>, Seq<Seq<char>>)>,
    default_model: Option<Seq<char>>,
) -> Seq<ModelView> {
    dedup_paths(sort_models(group_by_folder(all_candidates(roots, default_model))))
}

pub fn seq_lt_chars(a: &Vec<char>, b: &Vec<char>) -> (lt: bool)
    ensures
        lt == seq_lt(a@, b@),
{
    let mut i: usize = 0;
    assert(a@.skip(0) =~= a@);
    assert(b@.skip(0) =~= b@);
    while i < a.len() && i < b.len()
        invariant
            i <= a.len(),
            i <= b.len(),
            seq_lt(a@, b@) == seq_lt(a@.skip(i as int), b@.skip(i as int)),
        decreases a.len() - i,
    {
        assert(a@.skip(i as int)[0] == a@[i as int]);
        assert(b@.skip(i as int)[0] == b@[i as int]);
        if a[i] != b[i] {
            let r = (a[i] as u32) < (b[i] as u32);
            assert(a@.skip(i as int).len() > 0 && b@.skip(i as int).len() > 0);
            assert(r == seq_lt(a@.skip(i as int), b@.skip(i as int)));
            return r;
        }
        assert(a@.skip(i as int).drop_first() =~= a@.skip(i + 1));
        assert(b@.skip(i as int).drop_first() =~= b@.skip(i + 1));
        i = i + 1;
    }
    a.len() - i < b.len() - i
}

fn model_before_exec(a: &CompanionModel, b: &CompanionModel) -> (res: bool)
    ensures
        res == model_before(a@, b@),
{
    let la = lowercase_chars(&a.display_name);
    let lb = lowercase_chars(&b.display_name);
    if a.is_default && !b.is_default {
        return true;
    }
    if a.is_default != b.is_default {
        return false;
    }
    if seq_lt_chars(&la, &lb) {
        return true;
    }
    if !crate::text::chars_equal(&la, &lb) {
        return false;
    }
    let pa = chars_of(a.model_path.as_str());
    let pb = chars_of(b.model_path.as_str());
    seq_lt_chars(&pa, &pb)
}

proof fn lemma_insert_model_at(s: Seq<ModelView>, m: ModelView, k: int)
    requires
        0 <= k <= s.len(),
        forall|j: int| 0 <= j < k ==> !model_before(m, #[trigger] s[j]),
        k == s.len() || model_before(m, s[k]),
    ensures
        insert_model(s, m) == s.insert(k, m),
    decreases k,
{
    if k == 0 {
        if s.len() == 0 {
            assert(s.insert(0, m) =~= seq![m]);
        } else {
            assert(s.insert(0, m) =~= seq![m] + s);
        }
    } else {
        let t = s.drop_first();
        assert forall|j: int| 0 <= j < k - 1 implies !model_before(m, #[trigger] t[j]) by {
            assert(t[j] == s[j + 1]);
        }
        if k < s.len() {
            assert(t[k - 1] == s[k]);
        }
        lemma_insert_model_at(t, m, k - 1);
        assert(seq![s[0]] + t.insert(k - 1, m) =~= s.insert(k, m));
    }
}

fn sort_models_exec(s: &Vec<CompanionModel>) -> (out: Vec<CompanionModel>)
    ensures
        models_view(out@) == sort_models(models_view(s@)),
{
    let mut sorted: Vec<CompanionModel> = Vec::new();
    let mut i: usize = 0;
    while i < s.len()
        invariant
            i <= s.len(),
            models_view(sorted@) == sort_models(models_view(s@).take(i as int)),
        decreases s.len() - i,
    {
        assert(models_view(s@).take(i + 1).drop_last() =~= models_view(s@).take(i as int));
        let m = copy_model(&s[i]);
        let mut k: usize = 0;
        while k < sorted.len() && !model_before_exec(&m, &sorted[k])
            invariant
                k <= sorted.len(),
                forall|j: int| 0 <= j < k ==> !model_before(m@, #[trigger] models_view(sorted@)[j]),
            decreases sorted.len() - k,
        {
            k = k + 1;
        }
        proof {
            lemma_insert_model_at(models_view(sorted@), m@, k as int);
        }
        let ghost before = sorted@;
        let ghost mv = m@;
        sorted.insert(k, m);
        assert(models_view(sorted@) =~= models_view(before).insert(k as int, mv));
        i = i + 1;
    }
    assert(models_view(s@).take(s.len() as int) =~= models_view(s@));
    sorted
}

fn dedup_paths_exec(s: &Vec<CompanionModel>) -> (out: Vec<CompanionModel>)
    ensures
        models_view(out@) == dedup_paths(models_view(s@)),
{
    let mut out: Vec<CompanionModel> = Vec::new();
    let mut i: usize = 0;
    while i < s.len()
        invariant
            i <= s.len(),
            models_view(out@) == dedup_paths(models_view(s@).take(i as int)),
        decreases s.len() - i,
    {
        assert(models_view(s@).take(i + 1).drop_last() =~= models_view(s@).take(i as int));
        let repeated = out.len() > 0 && out[out.len() - 1].model_path == s[i].model_path;
        if !repeated {
            let ghost before = out@;
            let m = copy_model(&s[i]);
            out.push(m);
            assert(models_view(out@) =~= models_view(before).push(s@[i as int]@));
        }
        i = i + 1;
    }
    assert(models_view(s@).take(s.len() as int) =~= models_view(s@));
    out
}

// ---------------------------------------------------------------------------
// Discovery
// ---------------------------------------------------------------------------

pub open spec fn listings_view(roots: Seq<ModelRootListing>) -> Seq<(Seq<char>, Seq<Seq<char>>)> {
    roots.map_values(|l: ModelRootListing| listing_view(l))
}

fn opt_string_as_str(o: &Option<String>) -> (r: Option<&str>)
    ensures
        opt_str(r) == opt_seq(*o),
{
    match o {
        Some(s) => Some(s.as_str()),
        None => None,
    }
}

/// Appends the candidates of the listed folders, folder after folder (see
/// `all_candidates`).
fn push_candidates(
    listings: &Vec<ModelRootListing>,
    default_model: Option<&str>,
    cands: &mut Vec<CompanionModel>,
)
    ensures
        models_view(final(cands)@) == models_view(old(cands)@) + all_candidates(
            listings_view(listings@),
            opt_str(default_model),
        ),
{
    let ghost d = opt_str(default_model);
    let ghost rv = listings_view(listings@);
    let ghost start0 = models_view(cands@);
    assert(all_candidates(rv.take(0), d) =~= Seq::<ModelView>::empty());
    assert(models_view(cands@) =~= start0 + all_candidates(rv.take(0), d));
    let mut i: usize = 0;
    while i < listings.len()
        invariant
            i <= listings.len(),
            rv == listings_view(listings@),
            d == opt_str(default_model),
            models_view(cands@) == start0 + all_candidates(rv.take(i as int), d),
        decreases listings.len() - i,
    {
        let listing = &listings[i];
        let ghost files = listing_view(*listing).1;
        let ghost start = models_view(cands@);
        let mut j: usize = 0;
        assert(root_candidates(listing.root@, files.take(0), d) =~= Seq::<ModelView>::empty());
        assert(models_view(cands@) =~= start + root_candidates(listing.root@, files.take(0), d));
        while j < listing.files.len()
            invariant
                i < listings.len(),
                listing == &listings@[i as int],
                files == listing_view(*listing).1,
                j <= listing.files.len(),
                models_view(cands@) == start + root_candidates(listing.root@, files.take(j as int), d),
                d == opt_str(default_model),
            decreases listing.files.len() - j,
        {
            assert(files.take(j + 1).drop_last() =~= files.take(j as int));
            assert(files.take(j + 1).last() == listing.files@[j as int]@);
            let ghost before = cands@;
            match model_candidate_exec(listing.root.as_str(), listing.files[j].as_str(), default_model) {
                Some(m) => {
                    let ghost mv = m@;
                    cands.push(m);
                    assert(models_view(cands@) =~= models_view(before).push(mv));
                },
                None => {},
            }
            j = j + 1;
        }
        assert(files.take(listing.files.len() as int) =~= files);
        assert(rv.take(i + 1).drop_last() =~= rv.take(i as int));
        assert(rv.take(i + 1).last() == listing_view(*listing));
        assert(start0 + all_candidates(rv.take(i + 1), d) =~= start0 + all_candidates(rv.take(i as int), d)
            + root_candidates(listing.root@, files, d));
        i = i + 1;
    }
    assert(rv.take(listings.len() as int) =~= rv);
}

/// The models found in the listed folders (see `discover_spec`): every
/// `.model3.json` file becomes a candidate, each folder keeps its preferred
/// candidate, and the result is sorted with the default model first.
pub fn discover_models_in_roots(roots: &Vec<ModelRootListing>, default_model: Option<&str>) -> (models: Vec<CompanionModel>)
    ensures
        models_view(models@) == discover_spec(listings_view(roots@), opt_str(default_model)),
{
    let mut cands: Vec<CompanionModel> = Vec::new();
    push_candidates(roots, default_model, &mut cands);
    assert(models_view(cands@) =~= all_candidates(listings_view(roots@), opt_str(default_model)));
    let groups = group_by_folder_exec(&cands);
    let sorted = sort_models_exec(&groups);
    dedup_paths_exec(&sorted)
}

// ---------------------------------------------------------------------------
// Discovery from the configuration
// ---------------------------------------------------------------------------

/// The folders scanned for models: the configured ones, resolved.
pub open spec fn model_roots_spec(
    config_roots: Seq<Seq<char>>,
    home: Option<Seq<char>>,
    manifest_dir: Seq<char>,
) -> Seq<Seq<char>> {
    config_roots.map_values(|r: Seq<char>| resolve_config_spec(r, home, manifest_dir))
}

/// The configured default model, resolved.
pub open spec fn default_model_spec(
    configured: Option<Seq<char>>,
    home: Option<Seq<char>>,
    manifest_dir: Seq<char>,
) -> Option<Seq<char>> {
    match configured {
        Some(p) => Some(resolve_config_spec(p, home, manifest_dir)),
        None => None,
    }
}

/// The folders scanned for models (see `model_roots_spec`).
pub fn model_search_roots(config: &CompanionConfig, home: Option<&str>, manifest_dir: &str) -> (roots: Vec<String>)
    ensures
        roots_view(roots@) == model_roots_spec(roots_view(config.live2d_roots@), opt_str(home), manifest_dir@),
{
    let ghost want = model_roots_spec(roots_view(config.live2d_roots@), opt_str(home), manifest_dir@);
    let mut roots: Vec<String> = Vec::new();
    let mut i: usize = 0;
    while i < config.live2d_roots.len()
        invariant
            i <= config.live2d_roots.len(),
            want == model_roots_spec(roots_view(config.live2d_roots@), opt_str(home), manifest_dir@),
            roots_view(roots@) == want.take(i as int),
        decreases config.live2d_roots.len() - i,
    {
        let r = resolve_config_path(config.live2d_roots[i].as_str(), home, manifest_dir);
        let ghost before = roots@;
        roots.push(r);
        assert(roots_view(roots@) =~= roots_view(before).push(r@));
        assert(want.take(i + 1) =~= want.take(i as int).push(want[i as int]));
        i = i + 1;
    }
    assert(want.take(config.live2d_roots.len() as int) =~= want);
    roots
}

/// The configured default model (see `default_model_spec`).
pub fn default_model_path(config: &CompanionConfig, home: Option<&str>, manifest_dir: &str) -> (res: Option<String>)
    ensures
        opt_seq(res) == default_model_spec(opt_seq(config.default_model_path), opt_str(home), manifest_dir@),
{
    match &config.default_model_path {
        Some(p) => Some(resolve_config_path(p.as_str(), home, manifest_dir)),
        None => None,
    }
}

/// One walk of a model folder: the folder walked, and the listings of the
/// directories that the walk visited, in its order (see
/// `ModelRootListing`).
#[derive(Debug)]
pub struct ModelFolderWalk {
    pub root: String,
    pub listings: Vec<ModelRootListing>,
}

pub open spec fn walk_roots(walks: Seq<ModelFolderWalk>) -> Seq<Seq<char>> {
    walks.map_values(|w: ModelFolderWalk| w.root@)
}

/// The listings of all walks, walk after walk.
pub open spec fn walk_listings(walks: Seq<ModelFolderWalk>) -> Seq<(Seq<char>, Seq<Seq<char>>)>
    decreases walks.len(),
{
    if walks.len() == 0 {
        Seq::empty()
    } else {
        walk_listings(walks.drop_last()) + listings_view(walks.last().listings@)
    }
}

proof fn lemma_all_candidates_append(
    a: Seq<(Seq<char>, Seq<Seq<char>>)>,
    b: Seq<(Seq<char>, Seq<Seq<char>>)>,
    d: Option<Seq<char>>,
)
    ensures
        all_candidates(a + b, d) == all_candidates(a, d) + all_candidates(b, d),
    decreases b.len(),
{
    if b.len() == 0 {
        assert(a + b =~= a);
        assert(all_candidates(a, d) + all_candidates(b, d) =~= all_candidates(a, d));
    } else {
        lemma_all_candidates_append(a, b.drop_last(), d);
        assert((a + b).drop_last() =~= a + b.drop_last());
        assert((a + b).last() == b.last());
        assert(all_candidates(a + b, d) =~= all_candidates(a, d) + all_candidates(b, d));
    }
}

/// The models of the configuration: those found by the walks of its
/// resolved model folders, one walk per folder in the configured order
/// (`model_search_roots`), with its resolved default model (see
/// `discover_spec`). Without configured folders there are none.
pub fn discover_models_from_config(
    config: &CompanionConfig,
    home: Option<&str>,
    manifest_dir: &str,
    walks: &Vec<ModelFolderWalk>,
) -> (models: Vec<CompanionModel>)
    requires
        walk_roots(walks@) == model_roots_spec(
            roots_view(config.live2d_roots@),
            opt_str(home),
            manifest_dir@,
        ),
    ensures
        models_view(models@) == discover_spec(
            walk_listings(walks@),
            default_model_spec(opt_seq(config.default_model_path), opt_str(home), manifest_dir@),
        ),
        config.live2d_roots@.len() == 0 ==> models@.len() == 0,
{
    let default_model = default_model_path(config, home, manifest_dir);
    let d = opt_string_as_str(&default_model);
    let ghost dv = opt_str(d);
    let mut cands: Vec<CompanionModel> = Vec::new();
    let mut i: usize = 0;
    assert(walks@.take(0) =~= Seq::<ModelFolderWalk>::empty());
    while i < walks.len()
        invariant
            i <= walks.len(),
            dv == opt_str(d),
            models_view(cands@) == all_candidates(walk_listings(walks@.take(i as int)), dv),
        decreases walks.len() - i,
    {
        let ghost before = walk_listings(walks@.take(i as int));
        push_candidates(&walks[i].listings, d, &mut cands);
        proof {
            assert(walks@.take(i + 1).drop_last() =~= walks@.take(i as int));
            assert(walks@.take(i + 1).last() == walks@[i as int]);
            lemma_all_candidates_append(before, listings_view(walks@[i as int].listings@), dv);
        }
        i = i + 1;
    }
    assert(walks@.take(walks.len() as int) =~= walks@);
    proof {
        if config.live2d_roots@.len() == 0 {
            assert(walk_roots(walks@).len() == 0);
            assert(walks@ =~= Seq::<ModelFolderWalk>::empty());
            assert(all_candidates(walk_listings(walks@), dv) =~= Seq::<ModelView>::empty());
            lemma_discover_nothing(dv);
        }
    }
    let groups = group_by_folder_exec(&cands);
    let sorted = sort_models_exec(&groups);
    dedup_paths_exec(&sorted)
}

proof fn lemma_discover_nothing(d: Option<Seq<char>>)
    ensures
        discover_spec(Seq::empty(), d).len() == 0,
{
    assert(all_candidates(Seq::empty(), d) =~= Seq::<ModelView>::empty());
    assert(group_by_folder(Seq::<ModelView>::empty()) =~= Seq::<ModelView>::empty());
    assert(sort_models(Seq::<ModelView>::empty()) =~= Seq::<ModelView>::empty());
    assert(dedup_paths(Seq::<ModelView>::empty()) =~= Seq::<ModelView>::empty());
}

} // verus!
