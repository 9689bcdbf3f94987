use tagbox::settings::{backup_name, default_config, new_config_path, ConfigValues, DialogSettings, SettingsState};

#[test]
fn settings_page_flow() {
    let mut s = SettingsState::new();
    assert_eq!(s.config_path, "tagbox.toml");
    assert_eq!(s.save_button_text(), "Save");
    s.begin_load();
    assert!(s.is_loading);
    s.finish_load("/cfg/a.toml".to_string(), Ok("x = 1".to_string()));
    assert!(!s.is_loading);
    assert_eq!(s.config_path, "/cfg/a.toml");
    assert_eq!(s.config_content, "x = 1");
    let (path, content) = s.begin_save();
    assert_eq!((path.as_str(), content.as_str()), ("/cfg/a.toml", "x = 1"));
    assert_eq!(s.save_button_text(), "Saving...");
    s.finish_save(Ok(()));
    assert_eq!(s.save_message.as_deref(), Some("配置已保存"));
    assert!(s.is_loading);
    s.save_message_expired();
    assert!(s.save_message.is_none());
    assert!(!s.is_loading);
}

#[test]
fn settings_errors() {
    let mut s = SettingsState::new();
    s.begin_load();
    s.finish_load("/nowhere".to_string(), Err("no such file".to_string()));
    assert_eq!(s.error_message.as_deref(), Some("读取配置文件失败: no such file"));
    assert_eq!(s.config_path, "tagbox.toml");
    s.begin_save();
    assert!(s.error_message.is_none());
    s.finish_save(Err("denied".to_string()));
    assert_eq!(s.error_message.as_deref(), Some("保存配置失败: denied"));
    assert!(!s.is_loading);
    s.begin_init();
    s.finish_init("/x/tagbox.toml".to_string(), Err("read-only".to_string()));
    assert_eq!(s.error_message.as_deref(), Some("创建配置文件失败: read-only"));
}

#[test]
fn new_configuration_file() {
    assert_eq!(new_config_path("/home/me"), "/home/me/tagbox.toml");
    let mut s = SettingsState::new();
    s.begin_init();
    s.finish_init(new_config_path("/home/me"), Ok(()));
    assert_eq!(s.config_path, "/home/me/tagbox.toml");
    assert_eq!(s.config_content, default_config());
    assert!(default_config().starts_with("# TagBox Configuration File\n"));
    assert!(default_config().contains("[database]\n"));
    assert_eq!(s.save_message.as_deref(), Some("新配置文件已创建"));
    s.pick_file("/other.toml".to_string());
    assert_eq!(s.config_path, "/other.toml");
}

#[test]
fn settings_dialog_fields() {
    let mut config = ConfigValues {
        database_path: "/data/tagbox.db".to_string(),
        storage_dir: "/data/files".to_string(),
        prefer_json: false,
        enable_fts: true,
        default_limit: 250,
    };
    let mut d = DialogSettings::load_config(&config, None);
    assert_eq!(d.config_path_text, "No configuration file loaded");
    assert_eq!(d.max_results, "250");
    assert!(!d.modified && !d.auto_extract);
    let d2 = DialogSettings::load_config(&config, Some("/etc/tagbox.toml"));
    assert_eq!(d2.config_path_text, "/etc/tagbox.toml");
    d.db_path = String::new();
    d.import_path = "/new/files".to_string();
    d.auto_extract = true;
    d.apply_to(&mut config);
    assert_eq!(config.database_path, "/data/tagbox.db");
    assert_eq!(config.storage_dir, "/new/files");
    assert!(config.prefer_json);
    d.reset_to_defaults();
    assert_eq!((d.db_path.as_str(), d.import_path.as_str(), d.max_results.as_str()), ("tagbox.db", "./documents", "1000"));
    assert!(d.modified && d.auto_extract && d.enable_fts && !d.auto_move);
    assert_eq!(backup_name("/data/tagbox.db", "20240101_120000"), "/data/tagbox.db.backup.20240101_120000");
}
