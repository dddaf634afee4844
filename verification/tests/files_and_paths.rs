use huohuo::bounds::{
    bounds_cache_entry, is_bounds_cache_file, local_bounds_document, local_bounds_path,
    precomputed_bounds_module, precomputed_bounds_path, stable_file_stem,
};
use huohuo::companion::{
    model_dir_of, model_file_parts, reusable_server_port, shortcut_action, wait_action,
    ShortcutAction, WaitAction,
};
use huohuo::config::{
    find_folia_app, find_folia_data_dir, folia_app_candidates, folia_data_dir_candidates,
    is_bounds_calibration_mode, with_default_roots, CompanionConfig,
};
use huohuo::notebook::{card_request_dir, card_request_path, card_request_text, request_file_stem};
use huohuo::paths::{expand_home_path, local_dir, project_root, resolve_config_path};
use huohuo::scripts::{cors_static_server_script, icity_compact_script};

fn empty_config() -> CompanionConfig {
    CompanionConfig {
        live2d_roots: vec![],
        default_model_path: None,
        archive_app_dir: None,
        folia_app_path: None,
        folia_data_dir: None,
        folia_default_page_id: None,
    }
}

#[test]
fn project_paths_hang_off_the_manifest_parent() {
    assert_eq!(project_root("/work/huohuo/src-tauri"), "/work/huohuo");
    assert_eq!(project_root("/"), "/");
    assert_eq!(local_dir("/work/huohuo/src-tauri"), "/work/huohuo/local");
}

#[test]
fn home_is_expanded_only_with_a_home() {
    assert_eq!(expand_home_path("~", Some("/Users/me")), "/Users/me");
    assert_eq!(expand_home_path("~/models", Some("/Users/me")), "/Users/me/models");
    assert_eq!(expand_home_path("~/models", None), "~/models");
    assert_eq!(expand_home_path("~other", Some("/Users/me")), "~other");
    assert_eq!(expand_home_path("/abs", Some("/Users/me")), "/abs");
}

#[test]
fn config_paths_are_relative_to_the_project_root() {
    assert_eq!(
        resolve_config_path("local/live2d", Some("/Users/me"), "/work/huohuo/src-tauri"),
        "/work/huohuo/local/live2d"
    );
    assert_eq!(
        resolve_config_path("~/m", Some("/Users/me"), "/work/huohuo/src-tauri"),
        "/Users/me/m"
    );
    assert_eq!(
        resolve_config_path("/opt/m", None, "/work/huohuo/src-tauri"),
        "/opt/m"
    );
}

#[test]
fn empty_config_scans_local_live2d() {
    let config = with_default_roots(empty_config());
    assert_eq!(config.live2d_roots, vec!["local/live2d".to_string()]);
    let mut other = empty_config();
    other.live2d_roots = vec!["a".to_string(), "b".to_string()];
    assert_eq!(with_default_roots(other).live2d_roots.len(), 2);
}

#[test]
fn folia_app_is_the_first_present_candidate() {
    let mut config = empty_config();
    config.folia_app_path = Some("apps/Folia.app".to_string());
    let candidates = folia_app_candidates(&config, Some("/Users/me"), "/w/p/src-tauri");
    assert_eq!(
        candidates,
        vec![
            "/w/p/apps/Folia.app".to_string(),
            "/Applications/folia.app".to_string(),
            "/Users/me/Applications/folia.app".to_string(),
            "/Applications/Folia.app".to_string(),
            "/Users/me/Applications/Folia.app".to_string(),
        ]
    );
    let present = vec![false, false, true, true, false];
    assert_eq!(
        find_folia_app(&candidates, &present),
        Some("/Users/me/Applications/folia.app".to_string())
    );
    assert_eq!(find_folia_app(&candidates, &vec![false; 5]), None);
}

#[test]
fn folia_data_dir_is_found_by_its_database() {
    let config = empty_config();
    let candidates = folia_data_dir_candidates(&config, Some("/Users/me"), "/w/p/src-tauri");
    assert_eq!(candidates.len(), 3);
    assert_eq!(
        candidates[1].probe,
        "/Users/me/Library/Application Support/com.laeglaur.notebook/notebook.sqlite3"
    );
    assert_eq!(
        find_folia_data_dir(&candidates, &vec![false, true, true]),
        Some("/Users/me/Library/Application Support/com.laeglaur.notebook".to_string())
    );
    let mut configured = empty_config();
    configured.folia_data_dir = Some("/data/folia".to_string());
    let candidates = folia_data_dir_candidates(&configured, None, "/w/p/src-tauri");
    assert_eq!(candidates.len(), 4);
    assert_eq!(candidates[0].dir, "/data/folia");
    assert_eq!(candidates[0].probe, "/data/folia");
}

#[test]
fn calibration_flag_accepts_one_and_true() {
    assert!(is_bounds_calibration_mode(Some("1")));
    assert!(is_bounds_calibration_mode(Some("TRUE")));
    assert!(is_bounds_calibration_mode(Some("tRuE")));
    assert!(!is_bounds_calibration_mode(Some("yes")));
    assert!(!is_bounds_calibration_mode(Some("true ")));
    assert!(!is_bounds_calibration_mode(None));
}

#[test]
fn stable_file_stem_is_fnv_hex() {
    assert_eq!(stable_file_stem(""), "14650fb0739d0383");
    assert_eq!(stable_file_stem("abc"), "e16801510db89efd");
    assert_eq!(
        stable_file_stem("/tmp/models/huohuo/huohuo.model3.json"),
        "ac921e0d3d4a4d02"
    );
}

#[test]
fn bounds_cache_lives_under_local_bounds() {
    assert_eq!(
        local_bounds_path("/w/p/src-tauri", "abc"),
        "/w/p/local/bounds/e16801510db89efd.json"
    );
    assert!(is_bounds_cache_file("/w/p/local/bounds/x.json"));
    assert!(!is_bounds_cache_file("/w/p/local/bounds/x.json.tmp"));
    assert!(!is_bounds_cache_file("/w/p/local/bounds/.json"));
}

#[test]
fn bounds_documents_round_trip() {
    let text = local_bounds_document("/m/a.model3.json", r#"{"x": [1, 2.5]}"#).unwrap();
    assert_eq!(
        text,
        "{\n  \"bounds\": {\n    \"x\": [\n      1,\n      2.5\n    ]\n  },\n  \"modelPath\": \"/m/a.model3.json\"\n}"
    );
    let entry = bounds_cache_entry("/c/x.json", &text).unwrap().unwrap();
    assert_eq!(entry.model_path, "/m/a.model3.json");
    assert_eq!(entry.bounds_json, r#"{"x":[1,2.5]}"#);
    assert!(bounds_cache_entry("/c/x.json", r#"{"bounds": 1}"#).unwrap().is_none());
    assert!(bounds_cache_entry("/c/x.json", r#"{"modelPath": 1, "bounds": 1}"#)
        .unwrap()
        .is_none());
    let error = bounds_cache_entry("/c/x.json", "{").unwrap_err();
    assert!(error.starts_with("Could not parse bounds cache /c/x.json: "));
    let error = local_bounds_document("/m", "nope").unwrap_err();
    assert!(error.starts_with("Could not parse bounds JSON: "));
}

#[test]
fn precomputed_module_wraps_pretty_json() {
    assert_eq!(
        precomputed_bounds_module(r#"{"a":1}"#).unwrap(),
        "import type { ModelBoundsSet } from \"./modelBoundsTypes\";\n\nexport const PRECOMPUTED_MODEL_BOUNDS: Record<string, ModelBoundsSet> = {\n  \"a\": 1\n};\n"
    );
    assert!(precomputed_bounds_module("[").unwrap_err().starts_with("Could not parse generated bounds JSON: "));
    assert_eq!(
        precomputed_bounds_path("/w/p/src-tauri").unwrap(),
        "/w/p/src/modelBounds.generated.ts"
    );
    assert_eq!(
        precomputed_bounds_path("/").unwrap_err(),
        "Could not resolve project root."
    );
}

#[test]
fn card_requests_are_named_by_time() {
    assert_eq!(request_file_stem(Some(1700000000123)), "card-1700000000123");
    assert_eq!(request_file_stem(None), "card-0");
    assert_eq!(
        card_request_dir(Some("/data/folia"), "/app"),
        "/data/folia/external-card-requests"
    );
    assert_eq!(card_request_dir(None, "/app"), "/app/folia-card-requests");
    assert_eq!(
        card_request_path("/app/folia-card-requests", Some(42)),
        "/app/folia-card-requests/card-42.notecard"
    );
}

#[test]
fn model_file_parts_split_the_path() {
    assert_eq!(
        model_file_parts("/m/cat/cat.model3.json"),
        Ok(("/m/cat".to_string(), "cat.model3.json".to_string()))
    );
    assert_eq!(
        model_file_parts("/"),
        Err("Model file has no parent directory.".to_string())
    );
    assert_eq!(
        model_file_parts("/m/.."),
        Err("Model file name is not valid UTF-8.".to_string())
    );
    assert_eq!(model_dir_of("/m/cat/cat.model3.json"), Ok("/m/cat".to_string()));
}

#[test]
fn shortcuts_act_only_when_pressed() {
    assert!(shortcut_action(false, true, false, false).is_none());
    assert!(matches!(
        shortcut_action(true, true, true, false),
        Some(ShortcutAction::LaunchArchive)
    ));
    assert!(matches!(
        shortcut_action(true, false, true, true),
        Some(ShortcutAction::OpenNotebookSearch)
    ));
    assert!(matches!(
        shortcut_action(true, false, false, true),
        Some(ShortcutAction::OpenDefaultNotebookCard)
    ));
    assert!(shortcut_action(true, false, false, false).is_none());
}

#[test]
fn scripts_are_the_injected_programs() {
    assert!(icity_compact_script().contains("huohuo-icity-compact-style"));
    assert!(cors_static_server_script().contains("Access-Control-Allow-Origin"));
}

#[test]
fn card_request_names_the_page() {
    assert_eq!(card_request_text("page-1").unwrap(), "{\"pageId\":\"page-1\"}");
    assert_eq!(card_request_text("a\"b").unwrap(), "{\"pageId\":\"a\\\"b\"}");
}

#[test]
fn waiting_probes_pauses_and_times_out() {
    assert!(matches!(wait_action(0, 5000, None), WaitAction::Probe));
    assert!(matches!(wait_action(100, 5000, Some(false)), WaitAction::Sleep(250)));
    assert!(matches!(wait_action(6000, 5000, Some(true)), WaitAction::Done(Ok(()))));
    match wait_action(5000, 5000, None) {
        WaitAction::Done(Err(e)) => assert_eq!(e, "Archive service did not respond in time."),
        other => panic!("unexpected {other:?}"),
    }
}

#[test]
fn running_model_servers_are_reused() {
    assert_eq!(reusable_server_port(Some((5123, true))), Some(5123));
    assert_eq!(reusable_server_port(Some((5123, false))), None);
    assert_eq!(reusable_server_port(None), None);
}

#[test]
fn bounds_read_back_within_the_nesting_limit() {
    let nested = |depth: usize| format!("{}{}", "[".repeat(depth), "]".repeat(depth));
    let text = local_bounds_document("/m/deep.model3.json", &nested(126)).unwrap();
    let entry = bounds_cache_entry("/c/d.json", &text).unwrap().unwrap();
    assert_eq!(entry.model_path, "/m/deep.model3.json");
    assert_eq!(entry.bounds_json, nested(126));
    // Bounds nested 127 deep are accepted but cannot be read back inside
    // the cache file's object.
    let text = local_bounds_document("/m/deep.model3.json", &nested(127)).unwrap();
    assert!(bounds_cache_entry("/c/d.json", &text).is_err());
    assert!(local_bounds_document("/m/deep.model3.json", &nested(128)).is_err());
}

#[test]
fn bounds_texts_read_back_unchanged() {
    let bounds = r#"{"name":"a \"q\" \\ é","list":[true,null,"x"]}"#;
    let text = local_bounds_document("/m/é \"q\".model3.json", bounds).unwrap();
    let entry = bounds_cache_entry("/c/e.json", &text).unwrap().unwrap();
    assert_eq!(entry.model_path, "/m/é \"q\".model3.json");
    assert_eq!(entry.bounds_json, r#"{"list":[true,null,"x"],"name":"a \"q\" \\ é"}"#);
}
