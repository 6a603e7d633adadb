use article_pipeline::registry::{RegistryError, SettingsDocument};
use article_pipeline::settings::{ProjectSettings, SectionDefinitionData};

fn settings_eq(a: &ProjectSettings, b: &ProjectSettings) -> bool {
    a.wordpress_url == b.wordpress_url
        && a.wordpress_user == b.wordpress_user
        && a.wordpress_pass == b.wordpress_pass
        && a.tool_name == b.tool_name
        && a.article_goal_prompt == b.article_goal_prompt
        && a.example_url == b.example_url
        && a.sections.len() == b.sections.len()
        && a.sections
            .iter()
            .zip(b.sections.iter())
            .all(|(x, y)| x.instructions == y.instructions)
        && a.text_generation_model == b.text_generation_model
        && a.target_word_count == b.target_word_count
}

fn default_record_for(name: &str) -> ProjectSettings {
    ProjectSettings {
        wordpress_url: String::new(),
        wordpress_user: String::new(),
        wordpress_pass: String::new(),
        tool_name: name.to_string(),
        article_goal_prompt: String::new(),
        example_url: String::new(),
        sections: Vec::new(),
        text_generation_model: "gpt-4o".to_string(),
        target_word_count: 1000,
    }
}

#[test]
fn create_then_get_returns_default() {
    let mut doc = SettingsDocument::new();
    assert_eq!(doc.create_project("Acme"), Ok(()));
    let got = doc.get_project_settings("Acme").expect("created project must be found");
    assert!(settings_eq(&got, &default_record_for("Acme")));
}

#[test]
fn create_twice_yields_already_exists() {
    let mut doc = SettingsDocument::new();
    assert_eq!(doc.create_project("Acme"), Ok(()));
    assert_eq!(doc.create_project("Acme"), Err(RegistryError::AlreadyExists));
}

#[test]
fn create_blank_name_yields_invalid_name() {
    let mut doc = SettingsDocument::new();
    assert_eq!(doc.create_project(""), Err(RegistryError::InvalidName));
    assert_eq!(doc.create_project("   \t\n"), Err(RegistryError::InvalidName));
}

#[test]
fn names_are_case_sensitive() {
    let mut doc = SettingsDocument::new();
    assert_eq!(doc.create_project("acme"), Ok(()));
    assert_eq!(doc.create_project("Acme"), Ok(()));
    assert_eq!(doc.list_projects(), vec!["Acme".to_string(), "acme".to_string()]);
}

#[test]
fn delete_missing_yields_not_found() {
    let mut doc = SettingsDocument::new();
    assert_eq!(doc.delete_project("ghost"), Err(RegistryError::NotFound));
}

#[test]
fn delete_removes_from_list() {
    let mut doc = SettingsDocument::new();
    assert_eq!(doc.create_project("one"), Ok(()));
    assert_eq!(doc.create_project("two"), Ok(()));
    assert_eq!(doc.delete_project("one"), Ok(()));
    let names = doc.list_projects();
    assert!(!names.contains(&"one".to_string()));
    assert_eq!(names, vec!["two".to_string()]);
    assert!(doc.get_project_settings("one").is_none());
}

#[test]
fn list_is_sorted_regardless_of_insertion_order() {
    let mut doc = SettingsDocument::new();
    for name in ["pear", "apple", "zebra", "mango", "cherry"] {
        assert_eq!(doc.create_project(name), Ok(()));
    }
    assert_eq!(
        doc.list_projects(),
        vec![
            "apple".to_string(),
            "cherry".to_string(),
            "mango".to_string(),
            "pear".to_string(),
            "zebra".to_string()
        ]
    );
}

#[test]
fn get_is_idempotent_without_save() {
    let mut doc = SettingsDocument::new();
    assert_eq!(doc.create_project("Acme"), Ok(()));
    let first = doc.get_project_settings("Acme").unwrap();
    let second = doc.get_project_settings("Acme").unwrap();
    assert!(settings_eq(&first, &second));
}

#[test]
fn save_settings_replaces_whole_record() {
    let mut doc = SettingsDocument::new();
    assert_eq!(doc.create_project("Acme"), Ok(()));
    let mut record = default_record_for("Acme");
    record.wordpress_url = "https://cms.example".to_string();
    record.sections.push(SectionDefinitionData {
        instructions: "Describe the pricing model".to_string(),
    });
    record.target_word_count = 1500;
    assert_eq!(doc.save_project_settings("Acme", record), Ok(()));
    let got = doc.get_project_settings("Acme").unwrap();
    assert_eq!(got.wordpress_url, "https://cms.example");
    assert_eq!(got.sections.len(), 1);
    assert_eq!(got.sections[0].instructions, "Describe the pricing model");
    assert_eq!(got.target_word_count, 1500);
}

#[test]
fn save_settings_on_missing_project_yields_not_found() {
    let mut doc = SettingsDocument::new();
    let record = default_record_for("ghost");
    assert_eq!(doc.save_project_settings("ghost", record), Err(RegistryError::NotFound));
}

#[test]
fn secrets_set_get_and_overwrite() {
    let mut doc = SettingsDocument::new();
    assert!(doc.get_secret("textApiKey").is_none());
    doc.set_secret("textApiKey", "sk-one".to_string());
    assert_eq!(doc.get_secret("textApiKey"), Some("sk-one".to_string()));
    doc.set_secret("textApiKey", "sk-two".to_string());
    assert_eq!(doc.get_secret("textApiKey"), Some("sk-two".to_string()));
    doc.set_secret("imageApiKey", "ide-key".to_string());
    assert_eq!(doc.get_secret("imageApiKey"), Some("ide-key".to_string()));
    assert_eq!(doc.get_secret("textApiKey"), Some("sk-two".to_string()));
}

#[test]
fn upsert_inserts_in_order_and_replaces_in_place() {
    let mut doc = SettingsDocument::new();
    doc.upsert_project("zeta", default_record_for("zeta"));
    doc.upsert_project("alpha", default_record_for("alpha"));
    doc.upsert_project("mid", default_record_for("mid"));
    assert_eq!(
        doc.list_projects(),
        vec!["alpha".to_string(), "mid".to_string(), "zeta".to_string()]
    );
    let mut changed = default_record_for("mid");
    changed.target_word_count = 2222;
    doc.upsert_project("mid", changed);
    assert_eq!(
        doc.list_projects(),
        vec!["alpha".to_string(), "mid".to_string(), "zeta".to_string()]
    );
    assert_eq!(doc.get_project_settings("mid").unwrap().target_word_count, 2222);
}

#[test]
fn secrets_do_not_disturb_projects() {
    let mut doc = SettingsDocument::new();
    assert_eq!(doc.create_project("Acme"), Ok(()));
    doc.set_secret("textApiKey", "sk".to_string());
    assert_eq!(doc.list_projects(), vec!["Acme".to_string()]);
}
