use huohuo::models::{
    discover_models_from_config, discover_models_in_roots, model_id_from_path,
    model_preference_score, model_search_roots, normalize_model_name, CompanionModel,
    ModelFolderWalk, ModelRootListing,
};
use huohuo::config::CompanionConfig;
use huohuo::reactions::{
    collect_files_with_suffix, dedup_reactions, discover_vtube_hotkey_reactions,
    first_vtube_settings_name, is_hidden_name, model_asset_stem, relative_model_file,
    vtube_settings_hotkeys, CompanionReaction,
};

fn model(display_name: &str, folder: &str, is_default: bool) -> CompanionModel {
    CompanionModel {
        id: String::new(),
        display_name: display_name.to_string(),
        model_path: format!("{folder}/{display_name}.model3.json"),
        folder: folder.to_string(),
        source_group: "local".to_string(),
        is_default,
    }
}

fn rel(path: &str) -> Vec<String> {
    path.split('/').map(|c| c.to_string()).collect()
}

fn reaction(kind: &str, name: &str, group: Option<&str>, expression: Option<&str>) -> CompanionReaction {
    CompanionReaction {
        kind: kind.to_string(),
        name: name.to_string(),
        group: group.map(String::from),
        expression: expression.map(String::from),
    }
}

#[test]
fn normalized_names_keep_ascii_letters_and_digits() {
    assert_eq!(normalize_model_name("Nagito vtuber model"), "Nagitovtubermodel");
    assert_eq!(normalize_model_name("怖い_v2!"), "v2");
}

#[test]
fn preference_scores() {
    assert_eq!(model_preference_score(&model("huohuo", "/m/huohuo", true)), 10000);
    assert_eq!(model_preference_score(&model("NagitoModel", "/m/Nagito vtuber model", false)), 11);
    assert_eq!(model_preference_score(&model("modelv1", "/m/Nagito vtuber model", false)), -73);
    assert_eq!(model_preference_score(&model("Huohuo", "/m/huohuo", false)), 86);
    assert_eq!(model_preference_score(&model("huohuo copy", "/m/huohuo", false)), 0);
    assert_eq!(model_preference_score(&model("model", "/m/x", false)), -95);
    assert_eq!(model_preference_score(&model("dog backup", "/m/dog", false)), -1);
}

#[test]
fn model_ids_are_relative_to_their_root() {
    assert_eq!(model_id_from_path("/r", "/r/a/b.model3.json"), "a/b.model3.json");
    assert_eq!(model_id_from_path("/other", "/r/a\\b.json"), "/r/a/b.json");
}

fn dir_listing(root: &str, files: &[&str]) -> ModelRootListing {
    ModelRootListing {
        root: root.to_string(),
        files: files.iter().map(|f| f.to_string()).collect(),
    }
}

#[test]
fn models_are_sorted_default_first_then_by_name() {
    let models = discover_models_in_roots(
        &vec![
            dir_listing("/m", &[]),
            dir_listing("/m/zeta", &["/m/zeta/Zeta.model3.json"]),
            dir_listing("/m/alpha", &["/m/alpha/alpha.model3.json", "/m/alpha/notes.txt"]),
            dir_listing("/m/Beta", &["/m/Beta/beta_two.model3.json"]),
        ],
        Some("/m//zeta/./Zeta.model3.json"),
    );
    let names: Vec<&str> = models.iter().map(|m| m.display_name.as_str()).collect();
    assert_eq!(names, vec!["Zeta", "alpha", "beta two"]);
    assert!(models[0].is_default);
    assert_eq!(models[2].id, "beta_two.model3.json");
    assert_eq!(models[2].folder, "/m/Beta");
    assert_eq!(models[2].source_group, "local");
}

#[test]
fn model_names_are_ordered_without_regard_to_case() {
    let models = discover_models_in_roots(
        &vec![
            dir_listing("/m/b", &["/m/b/Beta.model3.json"]),
            dir_listing("/m/a", &["/m/a/alpha.model3.json"]),
            dir_listing("/m/c", &["/m/c/Cat.model3.json"]),
        ],
        None,
    );
    let names: Vec<&str> = models.iter().map(|m| m.display_name.as_str()).collect();
    assert_eq!(names, vec!["alpha", "Beta", "Cat"]);
    assert!(models.iter().all(|m| !m.is_default));
}

#[test]
fn config_discovery_resolves_roots_and_default() {
    let config = CompanionConfig {
        live2d_roots: vec!["local/live2d".to_string()],
        default_model_path: Some("local/live2d/a/a.model3.json".to_string()),
        archive_app_dir: None,
        folia_app_path: None,
        folia_data_dir: None,
        folia_default_page_id: None,
    };
    let roots = model_search_roots(&config, None, "/w/p/src-tauri");
    assert_eq!(roots, vec!["/w/p/local/live2d".to_string()]);
    let models = discover_models_from_config(
        &config,
        None,
        "/w/p/src-tauri",
        &vec![ModelFolderWalk {
            root: "/w/p/local/live2d".to_string(),
            listings: vec![
                dir_listing("/w/p/local/live2d", &[]),
                dir_listing("/w/p/local/live2d/b", &["/w/p/local/live2d/b/b.model3.json"]),
                dir_listing("/w/p/local/live2d/a", &["/w/p/local/live2d/a/a.model3.json"]),
            ],
        }],
    );
    assert_eq!(models.len(), 2);
    assert_eq!(models[0].display_name, "a");
    assert!(models[0].is_default);
    assert_eq!(models[1].id, "b.model3.json");
    assert_eq!(models[1].folder, "/w/p/local/live2d/b");
}

#[test]
fn hidden_entries_are_skipped() {
    assert!(is_hidden_name(".git"));
    assert!(!is_hidden_name("git"));
    let files = vec![
        rel("b.motion3.json"),
        rel(".hidden/x.motion3.json"),
        rel("a/z.motion3.json"),
        rel("a.motion3.json"),
        rel("A.motion3.json"),
        rel("c.exp3.json"),
    ];
    let found = collect_files_with_suffix(&files, ".motion3.json");
    assert_eq!(
        found,
        vec![
            rel("A.motion3.json"),
            rel("a/z.motion3.json"),
            rel("a.motion3.json"),
            rel("b.motion3.json"),
        ]
    );
}

#[test]
fn relative_model_files_are_found_by_name() {
    let files = vec![rel("motions/idle.motion3.json"), rel("idle.motion3.json")];
    assert_eq!(
        relative_model_file("idle.motion3.json", ".motion3.json", true, &files),
        Some("idle.motion3.json".to_string())
    );
    let nested = vec![rel("motions/idle.motion3.json")];
    assert_eq!(
        relative_model_file("idle.motion3.json", ".motion3.json", false, &nested),
        Some("motions/idle.motion3.json".to_string())
    );
    assert_eq!(relative_model_file("idle.exp3.json", ".motion3.json", true, &files), None);
    assert_eq!(relative_model_file("", ".motion3.json", true, &files), None);
    assert_eq!(
        relative_model_file("missing.motion3.json", ".motion3.json", false, &files),
        None
    );
}

#[test]
fn asset_stems_drop_every_trailing_suffix() {
    assert_eq!(model_asset_stem("motions/idle.motion3.json", ".motion3.json"), "idle");
    assert_eq!(model_asset_stem("x.exp3.json.exp3.json", ".exp3.json"), "x");
    assert_eq!(model_asset_stem("a/b.json", ".exp3.json"), "b.json");
}

#[test]
fn repeated_reactions_are_dropped() {
    let reactions = vec![
        reaction("motion", "Idle", Some("idle"), None),
        reaction("motion", "idle again", Some("idle"), None),
        reaction("expression", "smile", None, Some("smile")),
        reaction("expression", "other name", None, Some("smile")),
        reaction("clear", "clear expressions", None, None),
        reaction("clear", "clear expressions", None, None),
        reaction("expression", "frown", None, Some("frown")),
    ];
    let kept = dedup_reactions(reactions);
    let names: Vec<&str> = kept.iter().map(|r| r.name.as_str()).collect();
    assert_eq!(names, vec!["Idle", "smile", "clear expressions", "frown"]);
}

#[test]
fn hotkeys_read_from_settings_text() {
    let hotkeys = vtube_settings_hotkeys(
        r#"{"Hotkeys": [{"Action": "RemoveAllExpressions", "Name": 3}, {"Action": "Other"}]}"#,
    );
    assert_eq!(hotkeys.len(), 2);
    assert_eq!(hotkeys[0].action.as_deref(), Some("RemoveAllExpressions"));
    assert_eq!(hotkeys[0].name, None);
    assert_eq!(hotkeys[1].file, None);
    assert!(vtube_settings_hotkeys("not json").is_empty());
    assert!(vtube_settings_hotkeys(r#"{"Hotkeys": {}}"#).is_empty());
    let reactions = discover_vtube_hotkey_reactions(&hotkeys, &vec![false, false], &vec![]);
    assert_eq!(reactions.len(), 1);
    assert_eq!(reactions[0].kind, "clear");
    assert_eq!(reactions[0].name, "clear expressions");
}

#[test]
fn animation_hotkeys_name_their_group_after_the_file() {
    let hotkeys = vtube_settings_hotkeys(
        r#"{"Hotkeys": [{"Action": "TriggerAnimation", "File": "motions/wave.motion3.json", "Name": "Wave"}]}"#,
    );
    let reactions = discover_vtube_hotkey_reactions(&hotkeys, &vec![true], &vec![]);
    assert_eq!(reactions.len(), 1);
    assert_eq!(reactions[0].name, "Wave");
    assert_eq!(reactions[0].group.as_deref(), Some("motions/wave"));
}

#[test]
fn vtube_settings_file_is_the_least_name() {
    let names = vec![
        "z.vtube.json".to_string(),
        "model.model3.json".to_string(),
        "B.vtube.json".to_string(),
        "a.vtube.json".to_string(),
    ];
    assert_eq!(first_vtube_settings_name(&names), Some("B.vtube.json".to_string()));
    assert_eq!(first_vtube_settings_name(&vec!["x.json".to_string()]), None);
}

#[test]
fn preference_score_ignores_ascii_case() {
    assert_eq!(
        model_preference_score(&model("HuoHuo_Copy", "/m/HUOHUO", false)),
        model_preference_score(&model("huohuo_copy", "/m/huohuo", false)),
    );
    assert_eq!(
        model_preference_score(&model("NAGITOMODEL", "/m/Nagito vtuber model", false)),
        model_preference_score(&model("NagitoModel", "/m/nagito VTUBER model", false)),
    );
}

#[test]
fn no_configured_folders_find_no_models() {
    let config = CompanionConfig {
        live2d_roots: vec![],
        default_model_path: Some("local/live2d/a/a.model3.json".to_string()),
        archive_app_dir: None,
        folia_app_path: None,
        folia_data_dir: None,
        folia_default_page_id: None,
    };
    assert!(model_search_roots(&config, None, "/w/p/src-tauri").is_empty());
    assert!(discover_models_from_config(&config, None, "/w/p/src-tauri", &vec![]).is_empty());
}
