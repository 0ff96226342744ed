use tray_env_menu::export::{export_file_name, timestamped_export_file_name};
use tray_env_menu::greet;
use tray_env_menu::persistence::{
    collect_env_files, config_file_path, default_project_config, env_file_patterns, file_name_of,
    join_path,
};

#[test]
fn greeting_text() {
    assert_eq!(greet("World"), "Hello, World! You've been greeted from Rust!");
}

#[test]
fn recognized_env_file_patterns() {
    let patterns = env_file_patterns();
    let expected = vec![".env", ".env.local", ".env.development", ".env.production", ".env.test"];
    assert_eq!(patterns.len(), expected.len());
    for (p, e) in patterns.iter().zip(expected.iter()) {
        assert_eq!(p, e);
    }
}

#[test]
fn join_and_config_path() {
    assert_eq!(join_path("/proj", ".env"), "/proj/.env");
    assert_eq!(config_file_path("/proj"), "/proj/.hold-config.json");
}

#[test]
fn file_name_from_path() {
    assert_eq!(file_name_of("/a/b/proj"), "proj");
    assert_eq!(file_name_of("C:\\work\\demo"), "demo");
    assert_eq!(file_name_of("plain"), "plain");
    assert_eq!(file_name_of("/ends/with/"), "");
}

#[test]
fn collect_keeps_only_readable_files_in_order() {
    let entries = vec![
        (".env".to_string(), "/p/.env".to_string(), Some("A=1".to_string())),
        (".env.local".to_string(), "/p/.env.local".to_string(), None),
        (".env.test".to_string(), "/p/.env.test".to_string(), Some("B=2".to_string())),
    ];
    let files = collect_env_files(&entries);
    assert_eq!(files.len(), 2);
    assert_eq!(files[0].name, ".env");
    assert_eq!(files[0].path, "/p/.env");
    assert_eq!(files[0].content, "A=1");
    assert_eq!(files[1].name, ".env.test");
    assert_eq!(files[1].content, "B=2");
}

#[test]
fn default_config_for_unsaved_project() {
    let config = default_project_config("/work/demo".to_string(), vec![]);
    assert_eq!(config.name, "demo");
    assert_eq!(config.path, "/work/demo");
    assert!(config.env_files.is_empty());
    assert_eq!(config.preset_configs.len(), 2);
    assert_eq!(config.preset_configs[0].title, "开发环境");
    assert!(config.preset_configs[0].variables.is_empty());
    assert_eq!(config.preset_configs[1].title, "生产环境");
    assert!(config.preset_configs[1].variables.is_empty());
}

#[test]
fn export_name_formats_exactly() {
    assert_eq!(export_file_name("Demo", "20240101_000000"), "Demo_20240101_000000.json");
}

#[test]
fn timestamped_export_name_has_expected_shape() {
    let name = timestamped_export_file_name("Demo");
    assert!(name.starts_with("Demo_"));
    assert!(name.ends_with(".json"));
    assert!(name.len() > "Demo_.json".len());
}
