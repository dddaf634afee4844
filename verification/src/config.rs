use vstd::prelude::*;

use crate::paths::{
    opt_seq, expand_home_path, expand_home_spec, joined, opt_str, path_join, resolve_config_path,
    resolve_config_spec,
};
use crate::text::{chars_of, starts_with, string_of};

verus! {

/// The companion's configuration (`local/config.json`).
#[derive(Debug, Clone)]
pub struct CompanionConfig {
    pub live2d_roots: Vec<String>,
    pub default_model_path: Option<String>,
    pub archive_app_dir: Option<String>,
    pub folia_app_path: Option<String>,
    pub folia_data_dir: Option<String>,
    pub folia_default_page_id: Option<String>,
}

pub open spec fn roots_view(roots: Seq<String>) -> Seq<Seq<char>> {
    roots.map_values(|r: String| r@)
}

/// The model folder scanned when the configuration names none.
pub open spec fn default_live2d_root() -> Seq<char> {
    "local/live2d"@
}

/// The configuration with its defaults filled in: when it names no model
/// folder, `local/live2d` is scanned; every other field is kept.
pub fn with_default_roots(config: CompanionConfig) -> (out: CompanionConfig)
    ensures
        config.live2d_roots.len() == 0 ==> roots_view(out.live2d_roots@) == seq![
            default_live2d_root(),
        ],
        config.live2d_roots.len() > 0 ==> out.live2d_roots@ == config.live2d_roots@,
        out.default_model_path == config.default_model_path,
        out.archive_app_dir == config.archive_app_dir,
        out.folia_app_path == config.folia_app_path,
        out.folia_data_dir == config.folia_data_dir,
        out.folia_default_page_id == config.folia_default_page_id,
{
    let mut config = config;
    if config.live2d_roots.len() == 0 {
        config.live2d_roots.push(string_of(&chars_of("local/live2d")));
        assert(roots_view(config.live2d_roots@) =~= seq![default_live2d_root()]);
    }
    config
}

/// The places where the Folia application is looked for, in order: the
/// configured path (resolved), then `/Applications` and `~/Applications`
/// with both spellings of the name.
pub open spec fn folia_app_candidates_spec(
    configured: Option<Seq<char>>,
    home: Option<Seq<char>>,
    manifest_dir: Seq<char>,
) -> Seq<Seq<char>> {
    let defaults = seq![
        expand_home_spec("/Applications/folia.app"@, home),
        expand_home_spec("~/Applications/folia.app"@, home),
        expand_home_spec("/Applications/Folia.app"@, home),
        expand_home_spec("~/Applications/Folia.app"@, home),
    ];
    match configured {
        Some(c) => seq![resolve_config_spec(c, home, manifest_dir)] + defaults,
        None => defaults,
    }
}

fn opt_as_str(o: &Option<String>) -> (r: Option<&str>)
    ensures
        opt_str(r) == opt_seq(*o),
{
    match o {
        Some(s) => Some(s.as_str()),
        None => None,
    }
}

/// The candidate locations of the Folia application (see
/// `folia_app_candidates_spec`).
pub fn folia_app_candidates(config: &CompanionConfig, home: Option<&str>, manifest_dir: &str) -> (out: Vec<String>)
    ensures
        roots_view(out@) == folia_app_candidates_spec(
            opt_seq(config.folia_app_path),
            opt_str(home),
            manifest_dir@,
        ),
{
    let mut out: Vec<String> = Vec::new();
    match opt_as_str(&config.folia_app_path) {
        Some(c) => out.push(resolve_config_path(c, home, manifest_dir)),
        None => {},
    }
    out.push(expand_home_path("/Applications/folia.app", home));
    out.push(expand_home_path("~/Applications/folia.app", home));
    out.push(expand_home_path("/Applications/Folia.app", home));
    out.push(expand_home_path("~/Applications/Folia.app", home));
    assert(roots_view(out@) =~= folia_app_candidates_spec(
        opt_seq(config.folia_app_path),
        opt_str(home),
        manifest_dir@,
    ));
    out
}

/// The name of the notebook database inside a Folia data directory.
pub open spec fn notebook_database_file() -> Seq<char> {
    "notebook.sqlite3"@
}

/// A place where the Folia data directory may be: the directory, and the
/// path whose existence decides that it is there.
#[derive(Debug)]
pub struct DataDirCandidate {
    pub dir: String,
    pub probe: String,
}

pub open spec fn candidate_view(c: DataDirCandidate) -> (Seq<char>, Seq<char>) {
    (c.dir@, c.probe@)
}

pub open spec fn default_data_dir_candidate(dir: Seq<char>, home: Option<Seq<char>>) -> (Seq<char>, Seq<char>) {
    let d = expand_home_spec(dir, home);
    (d, joined(d, notebook_database_file()))
}

/// The places where the Folia data directory is looked for, in order: the
/// configured directory (resolved, present when it exists), then the usual
/// application support folders (present when they hold the notebook
/// database).
pub open spec fn folia_data_dir_candidates_spec(
    configured: Option<Seq<char>>,
    home: Option<Seq<char>>,
    manifest_dir: Seq<char>,
) -> Seq<(Seq<char>, Seq<char>)> {
    let defaults = seq![
        default_data_dir_candidate("~/Library/Application Support/com.laeglaur.folia"@, home),
        default_data_dir_candidate("~/Library/Application Support/com.laeglaur.notebook"@, home),
        default_data_dir_candidate("~/Library/Application Support/folia"@, home),
    ];
    match configured {
        Some(c) => {
            let d = resolve_config_spec(c, home, manifest_dir);
            seq![(d, d)] + defaults
        },
        None => defaults,
    }
}

fn default_candidate(dir: &str, home: Option<&str>) -> (c: DataDirCandidate)
    ensures
        candidate_view(c) == default_data_dir_candidate(dir@, opt_str(home)),
{
    let d = expand_home_path(dir, home);
    let probe = path_join(d.as_str(), "notebook.sqlite3");
    DataDirCandidate { dir: d, probe }
}

/// The candidate locations of the Folia data directory (see
/// `folia_data_dir_candidates_spec`).
pub fn folia_data_dir_candidates(config: &CompanionConfig, home: Option<&str>, manifest_dir: &str) -> (out: Vec<DataDirCandidate>)
    ensures
        out@.map_values(|c: DataDirCandidate| candidate_view(c)) == folia_data_dir_candidates_spec(
            opt_seq(config.folia_data_dir),
            opt_str(home),
            manifest_dir@,
        ),
{
    let mut out: Vec<DataDirCandidate> = Vec::new();
    match opt_as_str(&config.folia_data_dir) {
        Some(c) => {
            let d = resolve_config_path(c, home, manifest_dir);
            let probe = string_of(&chars_of(d.as_str()));
            out.push(DataDirCandidate { dir: d, probe });
        },
        None => {},
    }
    out.push(default_candidate("~/Library/Application Support/com.laeglaur.folia", home));
    out.push(default_candidate("~/Library/Application Support/com.laeglaur.notebook", home));
    out.push(default_candidate("~/Library/Application Support/folia", home));
    assert(out@.map_values(|c: DataDirCandidate| candidate_view(c)) =~= folia_data_dir_candidates_spec(
        opt_seq(config.folia_data_dir),
        opt_str(home),
        manifest_dir@,
    ));
    out
}

/// The index of the first candidate that is present.
pub open spec fn first_present(present: Seq<bool>) -> Option<int>
    decreases present.len(),
{
    if present.len() == 0 {
        None
    } else {
        match first_present(present.drop_last()) {
            Some(i) => Some(i),
            None => if present.last() {
                Some(present.len() - 1)
            } else {
                None
            },
        }
    }
}

fn first_present_exec(present: &Vec<bool>) -> (res: Option<usize>)
    ensures
        match res {
            Some(i) => i < present.len() && first_present(present@) == Some(i as int),
            None => first_present(present@) is None,
        },
{
    let mut i: usize = 0;
    while i < present.len()
        invariant
            i <= present.len(),
            first_present(present@.take(i as int)) is None,
        decreases present.len() - i,
    {
        assert(present@.take(i + 1).drop_last() =~= present@.take(i as int));
        if present[i] {
            proof {
                lemma_first_present_prefix(present@, i as int);
            }
            return Some(i);
        }
        i = i + 1;
    }
    assert(present@.take(present.len() as int) =~= present@);
    None
}

proof fn lemma_first_present_prefix(present: Seq<bool>, i: int)
    requires
        0 <= i < present.len(),
        present[i],
        first_present(present.take(i)) is None,
    ensures
        first_present(present) == Some(i),
    decreases present.len(),
{
    if i == present.len() - 1 {
        assert(present.drop_last() =~= present.take(i));
    } else {
        assert(present.drop_last().take(i) =~= present.take(i));
        lemma_first_present_prefix(present.drop_last(), i);
    }
}

/// The Folia application: the first of `candidates` (see
/// `folia_app_candidates`) that `present` marks as existing.
pub fn find_folia_app(candidates: &Vec<String>, present: &Vec<bool>) -> (res: Option<String>)
    requires
        present.len() == candidates.len(),
    ensures
        match first_present(present@) {
            Some(i) => res is Some && res.unwrap()@ == candidates@[i]@,
            None => res is None,
        },
{
    match first_present_exec(present) {
        Some(i) => Some(string_of(&chars_of(candidates[i].as_str()))),
        None => None,
    }
}

/// The Folia data directory: the directory of the first of `candidates`
/// (see `folia_data_dir_candidates`) whose probe `present` marks as
/// existing.
pub fn find_folia_data_dir(candidates: &Vec<DataDirCandidate>, present: &Vec<bool>) -> (res: Option<String>)
    requires
        present.len() == candidates.len(),
    ensures
        match first_present(present@) {
            Some(i) => res is Some && res.unwrap()@ == candidates@[i].dir@,
            None => res is None,
        },
{
    match first_present_exec(present) {
        Some(i) => Some(string_of(&chars_of(candidates[i].dir.as_str()))),
        None => None,
    }
}

/// Whether the bounds calibration mode is switched on by the value of
/// `HUOHUO_BOUNDS_CALIBRATE`: `1`, or `true` in any letter case.
pub open spec fn calibration_flag_spec(value: Option<Seq<char>>) -> bool {
    match value {
        Some(v) => v == "1"@ || (v.len() == 4 && crate::text::ascii_lower(v[0]) == 't'
            && crate::text::ascii_lower(v[1]) == 'r' && crate::text::ascii_lower(v[2]) == 'u'
            && crate::text::ascii_lower(v[3]) == 'e'),
        None => false,
    }
}

fn lower_is(c: char, lower: char) -> (b: bool)
    requires
        'a' <= lower <= 'z',
    ensures
        b == (crate::text::ascii_lower(c) == lower),
{
    c == lower || (c as u32) + 32 == (lower as u32)
}

/// Whether the bounds calibration mode is on (see `calibration_flag_spec`).
pub fn is_bounds_calibration_mode(value: Option<&str>) -> (b: bool)
    ensures
        b == calibration_flag_spec(opt_str(value)),
{
    match value {
        Some(v) => {
            let cs = chars_of(v);
            let one = chars_of("1");
            if crate::text::chars_equal(&cs, &one) {
                return true;
            }
            if cs.len() != 4 {
                return false;
            }
            lower_is(cs[0], 't') && lower_is(cs[1], 'r') && lower_is(cs[2], 'u') && lower_is(
                cs[3],
                'e',
            )
        },
        None => false,
    }
}


/// The notebook database of a Folia data directory.
pub fn notebook_database_path(data_dir: &str) -> (path: String)
    ensures
        path@ == joined(data_dir@, notebook_database_file()),
{
    path_join(data_dir, "notebook.sqlite3")
}

/// The error shown when the notebook database is missing; `shown` is how
/// its path is displayed.
pub fn database_not_found_message(shown: &str) -> (m: String)
    ensures
        m@ == "Folia database not found at "@ + shown@,
{
    string_of(&crate::text::concat_chars(&chars_of("Folia database not found at "), &chars_of(shown)))
}

// ---------------------------------------------------------------------------
// Laws of the candidate locations
// ---------------------------------------------------------------------------

proof fn lemma_expands_under_home(path: Seq<char>, h: Seq<char>, folder: Seq<char>)
    requires
        starts_with(path, "~/"@ + folder),
    ensures
        exists|rest: Seq<char>|
            starts_with(rest, folder) && #[trigger] expand_home_spec(path, Some(h)) == joined(h, rest),
{
    reveal_strlit("~/");
    reveal_strlit("~");
    let rest = path.skip(2);
    assert(path.take(2) =~= "~/"@) by {
        assert(path.take(2) =~= path.take(("~/"@ + folder).len() as int).take(2));
    }
    assert(starts_with(path, "~/"@));
    assert(path != "~"@) by {
        if path == "~"@ {
            assert(path.len() == 1);
        }
    }
    let pre = path.take(("~/"@ + folder).len() as int);
    assert(pre == "~/"@ + folder);
    assert(("~/"@ + folder).skip(2) =~= folder);
    assert(rest.len() >= folder.len());
    assert(rest.take(folder.len() as int) =~= pre.skip(2));
    assert(starts_with(rest, folder));
}

/// With a home directory, the usual Folia data directories are all under
/// it, in its `Library/Application Support` folder, each probed by its
/// notebook database; they follow the configured directory, which comes
/// first and is its own probe.
pub proof fn law_data_dir_candidates_under_home(
    configured: Option<Seq<char>>,
    h: Seq<char>,
    manifest_dir: Seq<char>,
)
    ensures
        ({
            let c = folia_data_dir_candidates_spec(configured, Some(h), manifest_dir);
            let first: int = if configured is Some { 1 } else { 0 };
            &&& c.len() == first + 3
            &&& configured is Some ==> c[0] == (
                resolve_config_spec(configured->Some_0, Some(h), manifest_dir),
                resolve_config_spec(configured->Some_0, Some(h), manifest_dir),
            )
            &&& forall|i: int|
                first <= i < c.len() ==> (exists|rest: Seq<char>|
                    starts_with(rest, "Library/Application Support/"@) && #[trigger] c[i].0
                        == joined(h, rest)) && c[i].1 == joined(c[i].0, "notebook.sqlite3"@)
        }),
{
    let folder = "Library/Application Support/"@;
    reveal_strlit("~/Library/Application Support/com.laeglaur.folia");
    reveal_strlit("~/Library/Application Support/com.laeglaur.notebook");
    reveal_strlit("~/Library/Application Support/folia");
    reveal_strlit("Library/Application Support/");
    reveal_strlit("~/");
    let p0 = "~/Library/Application Support/com.laeglaur.folia"@;
    let p1 = "~/Library/Application Support/com.laeglaur.notebook"@;
    let p2 = "~/Library/Application Support/folia"@;
    assert(p0.take(("~/"@ + folder).len() as int) =~= "~/"@ + folder);
    assert(p1.take(("~/"@ + folder).len() as int) =~= "~/"@ + folder);
    assert(p2.take(("~/"@ + folder).len() as int) =~= "~/"@ + folder);
    lemma_expands_under_home(p0, h, folder);
    lemma_expands_under_home(p1, h, folder);
    lemma_expands_under_home(p2, h, folder);
    let c = folia_data_dir_candidates_spec(configured, Some(h), manifest_dir);
    let first: int = if configured is Some { 1 } else { 0 };
    assert(c[first] == default_data_dir_candidate(p0, Some(h)));
    assert(c[first + 1] == default_data_dir_candidate(p1, Some(h)));
    assert(c[first + 2] == default_data_dir_candidate(p2, Some(h)));
}

/// With a home directory, each usual location of the Folia application is
/// either in the system `/Applications` folder or in the `Applications`
/// folder under the home directory; they follow the configured location.
pub proof fn law_app_candidates_under_home(
    configured: Option<Seq<char>>,
    h: Seq<char>,
    manifest_dir: Seq<char>,
)
    ensures
        ({
            let c = folia_app_candidates_spec(configured, Some(h), manifest_dir);
            let first: int = if configured is Some { 1 } else { 0 };
            &&& c.len() == first + 4
            &&& configured is Some ==> c[0] == resolve_config_spec(
                configured->Some_0,
                Some(h),
                manifest_dir,
            )
            &&& starts_with(c[first], "/Applications/"@)
            &&& starts_with(c[first + 2], "/Applications/"@)
            &&& exists|rest: Seq<char>|
                starts_with(rest, "Applications/"@) && #[trigger] joined(h, rest) == c[first + 1]
            &&& exists|rest: Seq<char>|
                starts_with(rest, "Applications/"@) && #[trigger] joined(h, rest) == c[first + 3]
        }),
{
    let folder = "Applications/"@;
    reveal_strlit("/Applications/folia.app");
    reveal_strlit("~/Applications/folia.app");
    reveal_strlit("/Applications/Folia.app");
    reveal_strlit("~/Applications/Folia.app");
    reveal_strlit("Applications/");
    reveal_strlit("/Applications/");
    reveal_strlit("~/");
    reveal_strlit("~");
    let a0 = "/Applications/folia.app"@;
    let a1 = "~/Applications/folia.app"@;
    let a2 = "/Applications/Folia.app"@;
    let a3 = "~/Applications/Folia.app"@;
    assert(a1.take(("~/"@ + folder).len() as int) =~= "~/"@ + folder);
    assert(a3.take(("~/"@ + folder).len() as int) =~= "~/"@ + folder);
    lemma_expands_under_home(a1, h, folder);
    lemma_expands_under_home(a3, h, folder);
    for_plain_app(a0, h);
    for_plain_app(a2, h);
    let c = folia_app_candidates_spec(configured, Some(h), manifest_dir);
    let first: int = if configured is Some { 1 } else { 0 };
    assert(c[first] == expand_home_spec(a0, Some(h)));
    assert(c[first + 1] == expand_home_spec(a1, Some(h)));
    assert(c[first + 2] == expand_home_spec(a2, Some(h)));
    assert(c[first + 3] == expand_home_spec(a3, Some(h)));
}

/// A path in the system `/Applications` folder is left as it is.
proof fn for_plain_app(path: Seq<char>, h: Seq<char>)
    requires
        path == "/Applications/folia.app"@ || path == "/Applications/Folia.app"@,
    ensures
        expand_home_spec(path, Some(h)) == path,
        starts_with(path, "/Applications/"@),
{
    reveal_strlit("/Applications/folia.app");
    reveal_strlit("/Applications/Folia.app");
    reveal_strlit("/Applications/");
    reveal_strlit("~/");
    reveal_strlit("~");
    assert(path[0] == '/');
    assert(path != "~"@) by {
        if path == "~"@ {
            assert(path[0] == '~');
        }
    }
    assert(!starts_with(path, "~/"@)) by {
        if starts_with(path, "~/"@) {
            assert(path.take(2)[0] == '~');
        }
    }
    assert(path.take(14) =~= "/Applications/"@);
}

} // verus!
