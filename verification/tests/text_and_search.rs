use huohuo::notebook::{
    advance_page_lookup, fts_query_from_search_text, page_exists_from_count,
    resolve_default_notebook_page_id, search_plan, PageAnswer, PageLookupStep,
};

#[test]
fn fts_query_quotes_each_word() {
    assert_eq!(
        fts_query_from_search_text("hello world"),
        Some("\"hello\" \"world\"".to_string())
    );
}

#[test]
fn fts_query_strips_ascii_punctuation_and_doubles_quotes() {
    assert_eq!(
        fts_query_from_search_text("  (rust)  say\"hi\"! "),
        Some("\"rust\" \"say\"\"hi\"".to_string())
    );
}

#[test]
fn fts_query_of_punctuation_only_uses_whole_text() {
    assert_eq!(fts_query_from_search_text(" !!! "), Some("\"!!!\"".to_string()));
    assert_eq!(
        fts_query_from_search_text("... \"\""),
        Some("\"... \"\"\"\"\"".to_string())
    );
}

#[test]
fn fts_query_of_blank_text_is_none() {
    assert_eq!(fts_query_from_search_text(""), None);
    assert_eq!(fts_query_from_search_text(" \t\n\u{3000}"), None);
}

#[test]
fn fts_query_splits_on_unicode_whitespace() {
    assert_eq!(
        fts_query_from_search_text("怖い\u{3000}顔"),
        Some("\"怖い\" \"顔\"".to_string())
    );
}

#[test]
fn search_plan_clamps_the_limit() {
    let plan = search_plan("  inbox  ", None).unwrap();
    assert_eq!(plan.fts_query, "\"inbox\"");
    assert_eq!(plan.max_results, 12);
    assert_eq!(plan.title_text, "inbox");
    assert_eq!(search_plan("a", Some(0)).unwrap().max_results, 1);
    assert_eq!(search_plan("a", Some(100)).unwrap().max_results, 30);
    assert_eq!(search_plan("a", Some(7)).unwrap().max_results, 7);
    assert!(search_plan("   ", Some(7)).is_none());
}

fn finished(step: PageLookupStep) -> Result<String, String> {
    match step {
        PageLookupStep::Finished(result) => result,
        _ => panic!("lookup not finished"),
    }
}

#[test]
fn configured_page_is_used_when_it_exists() {
    let step = resolve_default_notebook_page_id(Some("  page-1 "), &vec![]);
    assert!(matches!(&step, PageLookupStep::ConfiguredExists(id) if id == "page-1"));
    let answers = vec![PageAnswer::Exists(Ok(true))];
    assert_eq!(
        finished(resolve_default_notebook_page_id(Some("  page-1 "), &answers)),
        Ok("page-1".to_string())
    );
}

#[test]
fn missing_configured_page_is_an_error() {
    let answers = vec![PageAnswer::Exists(Ok(false))];
    assert_eq!(
        finished(resolve_default_notebook_page_id(Some("page-9"), &answers)),
        Err("Configured foliaDefaultPageId was not found: page-9".to_string())
    );
    let answers = vec![PageAnswer::Exists(Err("disk I/O error".to_string()))];
    assert_eq!(
        finished(resolve_default_notebook_page_id(Some("page-9"), &answers)),
        Err("disk I/O error".to_string())
    );
}

#[test]
fn lookup_falls_back_from_active_to_inbox_to_first_page() {
    let blank = Some("   ");
    assert!(matches!(
        resolve_default_notebook_page_id(blank, &vec![]),
        PageLookupStep::ActivePage
    ));
    let answers = || {
        vec![
            PageAnswer::Found(Some("active".to_string())),
            PageAnswer::Exists(Ok(false)),
            PageAnswer::Found(None),
            PageAnswer::Found(Some("first".to_string())),
        ]
    };
    let prefix = |n: usize| answers().into_iter().take(n).collect::<Vec<_>>();
    assert!(matches!(
        resolve_default_notebook_page_id(blank, &prefix(1)),
        PageLookupStep::ActiveExists(ref id) if id == "active"
    ));
    assert!(matches!(
        resolve_default_notebook_page_id(blank, &prefix(2)),
        PageLookupStep::InboxPage
    ));
    assert!(matches!(
        resolve_default_notebook_page_id(blank, &prefix(3)),
        PageLookupStep::FirstPage
    ));
    assert_eq!(
        finished(resolve_default_notebook_page_id(blank, &answers())),
        Ok("first".to_string())
    );
}

#[test]
fn blank_active_page_goes_to_inbox() {
    let answers = vec![
        PageAnswer::Found(Some("  ".to_string())),
        PageAnswer::Found(Some("inbox-page".to_string())),
    ];
    assert_eq!(
        finished(resolve_default_notebook_page_id(None, &answers)),
        Ok("inbox-page".to_string())
    );
}

#[test]
fn lookup_without_pages_reports_it() {
    let answers = vec![
        PageAnswer::Found(None),
        PageAnswer::Found(None),
        PageAnswer::Found(None),
    ];
    assert_eq!(
        finished(resolve_default_notebook_page_id(None, &answers)),
        Err("No Folia page was found. Create a page in Folia or set foliaDefaultPageId in local/config.json.".to_string())
    );
}

#[test]
fn finished_lookup_ignores_further_answers() {
    let step = advance_page_lookup(
        PageLookupStep::Finished(Ok("x".to_string())),
        &PageAnswer::Found(Some("y".to_string())),
    );
    assert_eq!(finished(step), Ok("x".to_string()));
}

#[test]
fn page_exists_when_counted() {
    assert!(page_exists_from_count(1));
    assert!(!page_exists_from_count(0));
}
