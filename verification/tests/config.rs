use pseudo3d::resources::types::config::{ConfigAsset, ConfigError};

#[test]
fn config_text_parses_into_a_table() {
    let text = "[spawn]\nx = 1.5\ny = 2.5\n\n[movement]\nspeed = 3.0\n";
    let config = ConfigAsset::parse("configs/player.toml".to_string(), text).expect("valid config");
    assert_eq!(config.path(), "configs/player.toml");
    let root = config.root();
    assert!(root.is_table());
    let spawn = root.get("spawn").and_then(|value| value.as_table()).expect("spawn section");
    assert_eq!(spawn.get("x").and_then(|value| value.as_float()), Some(1.5));
    assert!(root.get("head_bob").is_none());
}

#[test]
fn empty_config_is_an_empty_table() {
    let config = ConfigAsset::parse("empty.toml".to_string(), "").expect("valid config");
    assert!(config.root().as_table().expect("table").is_empty());
}

#[test]
fn text_that_is_not_toml_is_refused() {
    let result = ConfigAsset::parse("broken.toml".to_string(), "[spawn\nx = ");
    match result {
        Err(ConfigError::Syntax { reason }) => assert!(!reason.is_empty()),
        _ => panic!("expected a syntax error"),
    }
    let result = ConfigAsset::parse("dup.toml".to_string(), "a = 1\na = 2\n");
    assert!(matches!(result, Err(ConfigError::Syntax { .. })));
}
