use vstd::prelude::*;

use crate::json::{json_compact_of, text_result, to_json_text, Json, JsonView};
use crate::paths::{joined, opt_seq, opt_str, path_join};
use crate::text::{
    decimal, decimal_exec, chars_of, concat_chars, join, join_exec, split_white, split_white_exec, string_of, trim_class,
    trim_class_exec, trim_white, views, CharClass,
};

verus! {

// ---------------------------------------------------------------------------
// Full-text search queries
// ---------------------------------------------------------------------------

/// `t` with every double quote doubled.
pub open spec fn escape_quotes(t: Seq<char>) -> Seq<char>
    decreases t.len(),
{
    if t.len() == 0 {
        Seq::empty()
    } else {
        let r = escape_quotes(t.drop_last());
        if t.last() == '"' {
            r + seq!['"', '"']
        } else {
            r.push(t.last())
        }
    }
}

/// `t` as a quoted FTS5 phrase.
pub open spec fn fts_phrase(t: Seq<char>) -> Seq<char> {
    seq!['"'] + escape_quotes(t) + seq!['"']
}

/// The phrases of a list of words: each word with leading and trailing ASCII
/// punctuation removed, words that become empty dropped, the rest quoted.
pub open spec fn fts_phrases(words: Seq<Seq<char>>) -> Seq<Seq<char>>
    decreases words.len(),
{
    if words.len() == 0 {
        Seq::empty()
    } else {
        let r = fts_phrases(words.drop_last());
        let t = trim_class(words.last(), CharClass::AsciiPunct);
        if t.len() > 0 {
            r.push(fts_phrase(t))
        } else {
            r
        }
    }
}

/// The FTS5 match expression for a search text: its words as quoted phrases
/// separated by spaces; when every word is punctuation only, the whole
/// trimmed text as one phrase; nothing for a blank text.
pub open spec fn fts_query(q: Seq<char>) -> Option<Seq<char>> {
    let phrases = fts_phrases(split_white(q));
    if phrases.len() == 0 {
        let whole = trim_white(q);
        if whole.len() == 0 {
            None
        } else {
            Some(fts_phrase(whole))
        }
    } else {
        Some(join(phrases, seq![' ']))
    }
}

fn fts_phrase_exec(t: &Vec<char>) -> (out: Vec<char>)
    ensures
        out@ == fts_phrase(t@),
{
    let mut body: Vec<char> = Vec::new();
    let mut i: usize = 0;
    while i < t.len()
        invariant
            i <= t.len(),
            body@ == escape_quotes(t@.take(i as int)),
        decreases t.len() - i,
    {
        assert(t@.take(i + 1).drop_last() =~= t@.take(i as int));
        let c = t[i];
        if c == '"' {
            body.push('"');
            body.push('"');
            assert(body@ =~= escape_quotes(t@.take(i as int)) + seq!['"', '"']);
        } else {
            body.push(c);
        }
        i = i + 1;
    }
    assert(t@.take(t.len() as int) =~= t@);
    let mut out: Vec<char> = Vec::new();
    out.push('"');
    out = concat_chars(&out, &body);
    out.push('"');
    assert(out@ =~= seq!['"'] + escape_quotes(t@) + seq!['"']);
    out
}

/// Builds the FTS5 match expression for a search text (see `fts_query`).
pub fn fts_query_from_search_text(query: &str) -> (res: Option<String>)
    ensures
        opt_seq(res) == fts_query(query@),
{
    let q = chars_of(query);
    let words = split_white_exec(&q);
    let mut phrases: Vec<Vec<char>> = Vec::new();
    let mut i: usize = 0;
    while i < words.len()
        invariant
            i <= words.len(),
            views(phrases@) == fts_phrases(views(words@).take(i as int)),
        decreases words.len() - i,
    {
        let ghost prefix = views(words@).take(i as int);
        assert(views(words@).take(i + 1).drop_last() =~= prefix);
        assert(views(words@).take(i + 1).last() == words@[i as int]@);
        let t = trim_class_exec(&words[i], CharClass::AsciiPunct);
        if t.len() > 0 {
            let p = fts_phrase_exec(&t);
            let ghost before = phrases@;
            phrases.push(p);
            assert(views(phrases@) =~= views(before).push(p@));
        }
        i = i + 1;
    }
    assert(views(words@).take(words.len() as int) =~= views(words@));
    if phrases.len() == 0 {
        let whole = trim_class_exec(&q, CharClass::White);
        if whole.len() == 0 {
            None
        } else {
            Some(string_of(&fts_phrase_exec(&whole)))
        }
    } else {
        let mut sep: Vec<char> = Vec::new();
        sep.push(' ');
        assert(sep@ =~= seq![' ']);
        Some(string_of(&join_exec(&phrases, &sep)))
    }
}

/// What a page search runs: the match expression, the row limit, and the
/// trimmed text that titles are ranked against.
#[derive(Debug)]
pub struct SearchPlan {
    pub fts_query: String,
    pub max_results: i64,
    pub title_text: String,
}

pub open spec fn clamp_limit(limit: Option<u32>) -> int {
    let l = match limit {
        Some(l) => l as int,
        None => 12,
    };
    if l < 1 {
        1
    } else if l > 30 {
        30
    } else {
        l
    }
}

/// The plan of a page search: none for a blank query or one without a match
/// expression; otherwise the row limit is the given limit (12 by default)
/// clamped to 1..=30.
pub fn search_plan(query: &str, limit: Option<u32>) -> (res: Option<SearchPlan>)
    ensures
        match res {
            None => trim_white(query@).len() == 0 || fts_query(trim_white(query@)) is None,
            Some(plan) => {
                &&& trim_white(query@).len() > 0
                &&& fts_query(trim_white(query@)) == Some(plan.fts_query@)
                &&& plan.max_results == clamp_limit(limit)
                &&& plan.title_text@ == trim_white(query@)
            },
        },
{
    let q = chars_of(query);
    let trimmed_chars = trim_class_exec(&q, CharClass::White);
    if trimmed_chars.len() == 0 {
        return None;
    }
    let trimmed = string_of(&trimmed_chars);
    let fts = fts_query_from_search_text(trimmed.as_str());
    match fts {
        None => None,
        Some(fts_query) => {
            let l: u32 = match limit {
                Some(l) => l,
                None => 12,
            };
            let clamped: u32 = if l < 1 {
                1
            } else if l > 30 {
                30
            } else {
                l
            };
            Some(SearchPlan { fts_query, max_results: clamped as i64, title_text: trimmed })
        },
    }
}

// ---------------------------------------------------------------------------
// The default notebook page
// ---------------------------------------------------------------------------

/// What the notebook database answered to a lookup query.
#[derive(Debug)]
pub enum PageAnswer {
    /// Whether a page with the asked id exists, or the database error.
    Exists(Result<bool, String>),
    /// The id that a query returned; `None` when it returned no row or failed.
    Found(Option<String>),
}

/// Where the lookup of the default notebook page stands: the query that it
/// waits for, or its outcome.
#[derive(Debug)]
pub enum PageLookupStep {
    /// Waiting for whether the configured page exists.
    ConfiguredExists(String),
    /// Waiting for the active page id of the workspace preferences.
    ActivePage,
    /// Waiting for whether the active page exists.
    ActiveExists(String),
    /// Waiting for the first page titled "inbox".
    InboxPage,
    /// Waiting for the first page.
    FirstPage,
    /// Done.
    Finished(Result<String, String>),
}

pub open spec fn configured_not_found_message(id: Seq<char>) -> Seq<char> {
    "Configured foliaDefaultPageId was not found: "@ + id
}

pub open spec fn no_page_message() -> Seq<char> {
    "No Folia page was found. Create a page in Folia or set foliaDefaultPageId in local/config.json."@
}

/// Abstract view of a lookup step.
pub enum StepView {
    ConfiguredExists(Seq<char>),
    ActivePage,
    ActiveExists(Seq<char>),
    InboxPage,
    FirstPage,
    Finished(Result<Seq<char>, Seq<char>>),
}

pub enum AnswerView {
    Exists(Result<bool, Seq<char>>),
    Found(Option<Seq<char>>),
}

pub open spec fn result_view(r: Result<String, String>) -> Result<Seq<char>, Seq<char>> {
    match r {
        Ok(s) => Ok(s@),
        Err(e) => Err(e@),
    }
}

impl PageLookupStep {
    pub open spec fn view(&self) -> StepView {
        match self {
            PageLookupStep::ConfiguredExists(id) => StepView::ConfiguredExists(id@),
            PageLookupStep::ActivePage => StepView::ActivePage,
            PageLookupStep::ActiveExists(id) => StepView::ActiveExists(id@),
            PageLookupStep::InboxPage => StepView::InboxPage,
            PageLookupStep::FirstPage => StepView::FirstPage,
            PageLookupStep::Finished(r) => StepView::Finished(result_view(*r)),
        }
    }
}

impl PageAnswer {
    pub open spec fn view(&self) -> AnswerView {
        match self {
            PageAnswer::Exists(Ok(b)) => AnswerView::Exists(Ok(*b)),
            PageAnswer::Exists(Err(e)) => AnswerView::Exists(Err(e@)),
            PageAnswer::Found(o) => AnswerView::Found(opt_seq(*o)),
        }
    }
}

/// The first step: check the configured page id (trimmed) when it is not
/// blank, else ask for the active page.
pub open spec fn lookup_start(configured: Option<Seq<char>>) -> StepView {
    match configured {
        Some(c) => if trim_white(c).len() > 0 {
            StepView::ConfiguredExists(trim_white(c))
        } else {
            StepView::ActivePage
        },
        None => StepView::ActivePage,
    }
}

/// One step of the lookup.  An answer of the wrong kind, or any answer
/// after the end, leaves the step as it is.
pub open spec fn lookup_advance(step: StepView, answer: AnswerView) -> StepView {
    match (step, answer) {
        (StepView::ConfiguredExists(id), AnswerView::Exists(r)) => match r {
            Err(e) => StepView::Finished(Err(e)),
            Ok(true) => StepView::Finished(Ok(id)),
            Ok(false) => StepView::Finished(Err(configured_not_found_message(id))),
        },
        (StepView::ActivePage, AnswerView::Found(o)) => match o {
            Some(v) => if trim_white(v).len() > 0 {
                StepView::ActiveExists(v)
            } else {
                StepView::InboxPage
            },
            None => StepView::InboxPage,
        },
        (StepView::ActiveExists(id), AnswerView::Exists(r)) => match r {
            Err(e) => StepView::Finished(Err(e)),
            Ok(true) => StepView::Finished(Ok(id)),
            Ok(false) => StepView::InboxPage,
        },
        (StepView::InboxPage, AnswerView::Found(o)) => match o {
            Some(v) => StepView::Finished(Ok(v)),
            None => StepView::FirstPage,
        },
        (StepView::FirstPage, AnswerView::Found(o)) => match o {
            Some(v) => StepView::Finished(Ok(v)),
            None => StepView::Finished(Err(no_page_message())),
        },
        _ => step,
    }
}

/// The step reached from the start after the given answers.
pub open spec fn lookup_after(configured: Option<Seq<char>>, answers: Seq<AnswerView>) -> StepView
    decreases answers.len(),
{
    if answers.len() == 0 {
        lookup_start(configured)
    } else {
        lookup_advance(lookup_after(configured, answers.drop_last()), answers.last())
    }
}

pub open spec fn answer_views(answers: Seq<PageAnswer>) -> Seq<AnswerView> {
    answers.map_values(|a: PageAnswer| a.view())
}

fn clone_string(s: &String) -> (out: String)
    ensures
        out@ == s@,
{
    s.clone()
}

fn trim_string(s: &String) -> (out: Vec<char>)
    ensures
        out@ == trim_white(s@),
{
    let cs = chars_of(s.as_str());
    trim_class_exec(&cs, CharClass::White)
}

fn lookup_start_exec(configured: Option<&str>) -> (step: PageLookupStep)
    ensures
        step.view() == lookup_start(match configured {
            Some(c) => Some(c@),
            None => None,
        }),
{
    match configured {
        Some(c) => {
            let cs = chars_of(c);
            let t = trim_class_exec(&cs, CharClass::White);
            if t.len() > 0 {
                PageLookupStep::ConfiguredExists(string_of(&t))
            } else {
                PageLookupStep::ActivePage
            }
        },
        None => PageLookupStep::ActivePage,
    }
}

fn message_with(prefix: &str, id: &String) -> (out: String)
    ensures
        out@ == prefix@ + id@,
{
    let a = chars_of(prefix);
    let b = chars_of(id.as_str());
    string_of(&concat_chars(&a, &b))
}

/// One step of the default page lookup (see `lookup_advance`).
pub fn advance_page_lookup(step: PageLookupStep, answer: &PageAnswer) -> (next: PageLookupStep)
    ensures
        next.view() == lookup_advance(step.view(), answer.view()),
{
    match (step, answer) {
        (PageLookupStep::ConfiguredExists(id), PageAnswer::Exists(r)) => match r {
            Err(e) => PageLookupStep::Finished(Err(clone_string(e))),
            Ok(true) => PageLookupStep::Finished(Ok(id)),
            Ok(false) => PageLookupStep::Finished(
                Err(message_with("Configured foliaDefaultPageId was not found: ", &id)),
            ),
        },
        (PageLookupStep::ActivePage, PageAnswer::Found(o)) => match o {
            Some(v) => {
                let t = trim_string(v);
                if t.len() > 0 {
                    PageLookupStep::ActiveExists(clone_string(v))
                } else {
                    PageLookupStep::InboxPage
                }
            },
            None => PageLookupStep::InboxPage,
        },
        (PageLookupStep::ActiveExists(id), PageAnswer::Exists(r)) => match r {
            Err(e) => PageLookupStep::Finished(Err(clone_string(e))),
            Ok(true) => PageLookupStep::Finished(Ok(id)),
            Ok(false) => PageLookupStep::InboxPage,
        },
        (PageLookupStep::InboxPage, PageAnswer::Found(o)) => match o {
            Some(v) => PageLookupStep::Finished(Ok(clone_string(v))),
            None => PageLookupStep::FirstPage,
        },
        (PageLookupStep::FirstPage, PageAnswer::Found(o)) => match o {
            Some(v) => PageLookupStep::Finished(Ok(clone_string(v))),
            None => PageLookupStep::Finished(
                Err(
                    string_of(
                        &chars_of(
                            "No Folia page was found. Create a page in Folia or set foliaDefaultPageId in local/config.json.",
                        ),
                    ),
                ),
            ),
        },
        (s, _) => s,
    }
}

/// Resolves the default notebook page from the configured page id and the
/// answers the database gave so far: the step that the lookup has reached.
/// The caller performs the query that a non-final step asks for and calls
/// again with the answer appended, until the step is `Finished`.
pub fn resolve_default_notebook_page_id(configured: Option<&str>, answers: &Vec<PageAnswer>) -> (step: PageLookupStep)
    ensures
        step.view() == lookup_after(
            match configured {
                Some(c) => Some(c@),
                None => None,
            },
            answer_views(answers@),
        ),
{
    let ghost cfg = match configured {
        Some(c) => Some(c@),
        None => None,
    };
    let mut step = lookup_start_exec(configured);
    let mut i: usize = 0;
    while i < answers.len()
        invariant
            i <= answers.len(),
            step.view() == lookup_after(cfg, answer_views(answers@).take(i as int)),
        decreases answers.len() - i,
    {
        assert(answer_views(answers@).take(i + 1).drop_last() =~= answer_views(answers@).take(
            i as int,
        ));
        step = advance_page_lookup(step, &answers[i]);
        i = i + 1;
    }
    assert(answer_views(answers@).take(answers.len() as int) =~= answer_views(answers@));
    step
}

/// Whether a page exists, from the row count of the lookup by id.
pub fn page_exists_from_count(count: i64) -> (b: bool)
    ensures
        b == (count > 0),
{
    count > 0
}


// ---------------------------------------------------------------------------
// Notecard requests
// ---------------------------------------------------------------------------

/// The stem of a notecard request file: `card-` and the milliseconds since
/// the Unix epoch (0 when the clock is before it).
pub open spec fn request_stem_spec(millis: Option<u128>) -> Seq<char> {
    "card-"@ + decimal(
        match millis {
            Some(m) => m as nat,
            None => 0,
        },
    )
}

/// The stem of a notecard request file (see `request_stem_spec`).
pub fn request_file_stem(millis: Option<u128>) -> (stem: String)
    ensures
        stem@ == request_stem_spec(millis),
{
    let m: u128 = match millis {
        Some(m) => m,
        None => 0,
    };
    string_of(&concat_chars(&chars_of("card-"), &decimal_exec(m)))
}

/// The directory where notecard requests are written: the
/// `external-card-requests` folder of the Folia data directory when there
/// is one, else `folia-card-requests` in the companion's own data
/// directory.
pub open spec fn card_request_dir_spec(folia_data_dir: Option<Seq<char>>, app_data_dir: Seq<char>) -> Seq<char> {
    match folia_data_dir {
        Some(d) => joined(d, "external-card-requests"@),
        None => joined(app_data_dir, "folia-card-requests"@),
    }
}

/// The directory of notecard requests (see `card_request_dir_spec`).
pub fn card_request_dir(folia_data_dir: Option<&str>, app_data_dir: &str) -> (dir: String)
    ensures
        dir@ == card_request_dir_spec(opt_str(folia_data_dir), app_data_dir@),
{
    match folia_data_dir {
        Some(d) => path_join(d, "external-card-requests"),
        None => path_join(app_data_dir, "folia-card-requests"),
    }
}

/// The file of a notecard request in `dir`: its stem with `.notecard`.
pub fn card_request_path(dir: &str, millis: Option<u128>) -> (path: String)
    ensures
        path@ == joined(dir@, request_stem_spec(millis) + ".notecard"@),
{
    let stem = request_file_stem(millis);
    let name = string_of(&concat_chars(&chars_of(stem.as_str()), &chars_of(".notecard")));
    path_join(dir, name.as_str())
}

/// The document of a card request for a page: the object with the single
/// member `pageId`.
pub open spec fn card_request_doc(page_id: Seq<char>) -> JsonView {
    JsonView::Object(seq![("pageId"@, JsonView::Text(page_id))])
}

/// The text of a card request for a page: its document, compact (which
/// cannot fail).
pub fn card_request_text(page_id: &str) -> (res: Result<String, String>)
    ensures
        text_result(res) == match json_compact_of(card_request_doc(page_id@)) {
            Ok(t) => Ok::<Seq<char>, Seq<char>>(t),
            Err(e) => Err::<Seq<char>, Seq<char>>("Could not serialize folia request: "@ + e),
        },
        res is Ok,
{
    let key = string_of(&chars_of("pageId"));
    let value = string_of(&chars_of(page_id));
    let mut fields: Vec<(String, Json)> = Vec::new();
    fields.push((key, Json::Text(value)));
    let doc = Json::Object(fields);
    proof {
        reveal_strlit("pageId");
        let fv = doc@->Object_0;
        assert(fields@[0].0@ == "pageId"@);
        assert(fields@[0].1@ == JsonView::Text(page_id@));
        assert(fv.len() == 1);
        assert(fv[0] == ("pageId"@, JsonView::Text(page_id@)));
        assert(fv =~= seq![("pageId"@, JsonView::Text(page_id@))]);
        assert(doc@ =~= card_request_doc(page_id@));
    }
    match to_json_text(&doc) {
        Ok(t) => Ok(t),
        Err(e) => Err(string_of(
            &concat_chars(&chars_of("Could not serialize folia request: "), &chars_of(e.as_str())),
        )),
    }
}

} // verus!
