use huohuo::models::{discover_models_in_roots, ModelRootListing};
use huohuo::reactions::{discover_reactions_in_dir, vtube_settings_hotkeys, VtubeHotkey};

fn listing(root: &str, files: &[&str]) -> ModelRootListing {
    ModelRootListing {
        root: root.to_string(),
        files: files.iter().map(|f| f.to_string()).collect(),
    }
}

fn rel(path: &str) -> Vec<String> {
    path.split('/').map(|c| c.to_string()).collect()
}

fn direct_flags(hotkeys: &[VtubeHotkey], present: &[&str]) -> Vec<bool> {
    hotkeys
        .iter()
        .map(|h| present.contains(&h.file_or_empty().as_str()))
        .collect()
}

#[test]
fn discovers_model3_files() {
    let temp = "/tmp/models";
    let default_dir = format!("{temp}/huohuo");
    let anime_dir = format!("{temp}/anime");
    let default_model = format!("{default_dir}/huohuo.model3.json");
    let models = discover_models_in_roots(
        &vec![
            listing(&default_dir, &[default_model.as_str()]),
            listing(&anime_dir, &[]),
            listing(
                &format!("{anime_dir}/dog"),
                &[
                    &format!("{anime_dir}/dog/dog.model3.json"),
                    &format!("{anime_dir}/dog/dog.vtube.json"),
                ],
            ),
        ],
        Some(default_model.as_str()),
    );

    assert_eq!(models.len(), 2);
    assert!(models[0].is_default);
    assert_eq!(models[0].display_name, "huohuo");
    assert!(models.iter().any(|model| model.display_name == "dog"));
}

#[test]
fn keeps_one_preferred_model_per_folder() {
    let temp = "/tmp/models";
    let default_dir = format!("{temp}/huohuo");
    let anime_dir = format!("{temp}/anime");
    let nagito_dir = format!("{anime_dir}/Nagito vtuber model");
    let default_model = format!("{default_dir}/huohuo.model3.json");
    let models = discover_models_in_roots(
        &vec![
            listing(&default_dir, &[default_model.as_str()]),
            listing(&anime_dir, &[]),
            listing(
                &nagito_dir,
                &[
                    &format!("{nagito_dir}/NagitoModel.model3.json"),
                    &format!("{nagito_dir}/modelv1.model3.json"),
                ],
            ),
        ],
        Some(default_model.as_str()),
    );

    assert_eq!(models.len(), 2);
    assert!(models.iter().any(|model| model.display_name == "NagitoModel"));
    assert!(!models.iter().any(|model| model.display_name == "modelv1"));
}

#[test]
fn vtube_expression_reaction_uses_model_expression_name() {
    let settings = r#"{
        "Hotkeys": [
            {
                "Name": "怖い顔",
                "Action": "ToggleExpression",
                "File": "kowai.exp3.json"
            }
        ]
    }"#;
    let hotkeys = vtube_settings_hotkeys(settings);
    let files = vec![rel("expressions/kowai.exp3.json"), rel("cat.vtube.json")];
    let direct = direct_flags(&hotkeys, &["cat.vtube.json"]);

    let reactions = discover_reactions_in_dir(&hotkeys, &direct, &files);

    assert_eq!(reactions.len(), 1);
    assert_eq!(reactions[0].kind, "expression");
    assert_eq!(reactions[0].name, "怖い顔");
    assert_eq!(reactions[0].expression.as_deref(), Some("kowai"));
}

#[test]
fn vtube_reactions_include_files_missing_from_hotkeys() {
    let settings = r#"{
        "Hotkeys": [
            {
                "Name": "",
                "Action": "TriggerAnimation",
                "File": "qizi.motion3.json"
            },
            {
                "Name": "qizi1",
                "Action": "ToggleExpression",
                "File": "qizi1.exp3.json"
            }
        ]
    }"#;
    let present = [
        "qizi.motion3.json",
        "Scene1.motion3.json",
        "qizi1.exp3.json",
        "huohuo.vtube.json",
    ];
    let hotkeys = vtube_settings_hotkeys(settings);
    let files: Vec<Vec<String>> = present.iter().map(|f| rel(f)).collect();
    let direct = direct_flags(&hotkeys, &present);

    let reactions = discover_reactions_in_dir(&hotkeys, &direct, &files);
    let keys: Vec<String> = reactions
        .iter()
        .map(|reaction| match reaction.kind.as_str() {
            "motion" => format!("motion:{}", reaction.group.as_deref().unwrap_or("")),
            "expression" => format!(
                "expression:{}",
                reaction.expression.as_deref().unwrap_or("")
            ),
            _ => reaction.kind.clone(),
        })
        .collect();

    assert!(keys.contains(&"motion:qizi".to_string()));
    assert!(keys.contains(&"motion:Scene1".to_string()));
    assert!(keys.contains(&"expression:qizi1".to_string()));
    assert_eq!(
        keys.iter()
            .filter(|key| key.as_str() == "motion:qizi")
            .count(),
        1
    );
}
