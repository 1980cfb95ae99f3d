use navipod::config::{
    config_template, default_api_version, default_theme, Config, ConfigDocument, UiConfig,
    UiDocument,
};

fn document(api_version: Option<&str>, ui: Option<UiDocument>) -> ConfigDocument {
    ConfigDocument {
        url: "http://h".to_string(),
        username: "joe".to_string(),
        password: "pw".to_string(),
        api_version: api_version.map(|v| v.to_string()),
        ui,
    }
}

#[test]
fn missing_parts_have_defaults() {
    let cfg = Config::from_document(document(None, Some(UiDocument { theme: None })));
    assert_eq!(cfg.server.api_version, "1.16.1");
    assert_eq!(cfg.ui.theme, "liquid_glass");
    assert_eq!(default_api_version(), "1.16.1");
    assert_eq!(default_theme(), "liquid_glass");
}

#[test]
fn given_parts_are_kept() {
    let ui = UiDocument { theme: Some("material".to_string()) };
    let cfg = Config::from_document(document(Some("1.8.0"), Some(ui)));
    assert_eq!(cfg.server.url, "http://h");
    assert_eq!(cfg.server.username, "joe");
    assert_eq!(cfg.server.password, "pw");
    assert_eq!(cfg.server.api_version, "1.8.0");
    assert_eq!(cfg.ui.theme, "material");
    let again = cfg.clone();
    assert_eq!(again.ui.theme, "material");
    assert_eq!(again.server.password, "pw");
}

#[test]
fn without_a_ui_table_the_default_theme_is_asked_for() {
    assert_eq!(Config::from_document(document(None, None)).ui.theme, "liquid_glass");
    assert_eq!(UiConfig::default().theme, "liquid_glass");
}

#[test]
fn the_template_names_every_setting_that_is_needed() {
    let template = config_template();
    for key in ["[server]", "url = ", "username = ", "password = ", "[ui]", "theme = \"liquid_glass\""] {
        assert!(template.contains(key), "{key}");
    }
    assert_eq!(template.lines().count(), 7);
}

#[test]
fn the_template_is_a_configuration() {
    let table: toml::Table = toml::from_str(config_template()).unwrap();
    let server = table["server"].as_table().unwrap();
    let setting = |key: &str| server[key].as_str().unwrap().to_string();
    let theme = table["ui"]["theme"].as_str().unwrap().to_string();
    let cfg = Config::from_document(ConfigDocument {
        url: setting("url"),
        username: setting("username"),
        password: setting("password"),
        api_version: server.get("api_version").map(|v| v.as_str().unwrap().to_string()),
        ui: Some(UiDocument { theme: Some(theme) }),
    });
    assert_eq!(cfg.server.url, "http://your-subsonic-server:4533");
    assert_eq!(cfg.server.username, "admin");
    assert_eq!(cfg.server.password, "changeme");
    assert_eq!(cfg.server.api_version, "1.16.1");
    assert_eq!(cfg.ui.theme, "liquid_glass");
}
