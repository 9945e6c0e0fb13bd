use vfv::config::{contains_dangerous_pattern, Config, ConfigError};

#[test]
fn test_default_config() {
    let config = Config::default();
    assert_eq!(config.editor, "vim");
    assert!(config.editor_args.is_empty());
    assert!(!config.show_hidden);
    assert_eq!(config.preview_max_lines, 1000);
    assert_eq!(config.theme, "base16-ocean.dark");
}

#[test]
fn test_load_with_result_nonexistent_config_returns_default() {
    // When config file doesn't exist, loading falls back to the default.
    let config = Config::default();
    assert_eq!(config.editor, "vim");
}

#[test]
fn test_config_error_display() {
    let config_error = ConfigError::Read("file not found".to_string());
    let display = config_error.message();
    assert!(display.contains("Failed to read config"));
}

#[test]
fn test_config_error_parse_error_display() {
    let config_error = ConfigError::Parse("unexpected end of input".to_string());
    let display = config_error.message();
    assert!(display.contains("Failed to parse config"));
}

#[test]
fn test_validate_editor_safe_command() {
    let config = Config {
        editor: "vim".to_string(),
        editor_args: vec!["-c".to_string(), "set number".to_string()],
        ..Config::default()
    };
    assert!(config.validate_editor().is_ok());
}

#[test]
fn test_validate_editor_with_dangerous_patterns() {
    let dangerous_editors = vec![
        "vim; rm -rf /",
        "$(malicious)",
        "`command`",
        "cmd && evil",
        "cmd || fallback",
        "cmd | pipe",
        "cmd > file",
        "cmd < file",
    ];

    for editor in dangerous_editors {
        let config = Config { editor: editor.to_string(), ..Config::default() };
        let result = config.validate_editor();
        assert!(result.is_ok(), "validate_editor should not fail for: {}", editor);
        assert!(config.editor_has_warnings());
    }
}

#[test]
fn test_validate_editor_args_with_dangerous_patterns() {
    let config = Config {
        editor: "vim".to_string(),
        editor_args: vec!["-c".to_string(), "!rm -rf /".to_string()],
        ..Config::default()
    };
    assert!(config.validate_editor().is_ok());
}

#[test]
fn test_dangerous_pattern_detection() {
    assert!(contains_dangerous_pattern("vim; rm -rf /"));
    assert!(contains_dangerous_pattern("a | b"));
    assert!(!contains_dangerous_pattern("vim"));
    assert!(!contains_dangerous_pattern("nvim --clean"));
}

#[test]
fn test_editor_warnings_cover_args() {
    let clean = Config {
        editor: "vim".to_string(),
        editor_args: vec!["-c".to_string(), "set number".to_string()],
        ..Config::default()
    };
    assert!(!clean.editor_has_warnings());

    let shady = Config {
        editor: "vim".to_string(),
        editor_args: vec!["-c".to_string(), "a > b".to_string()],
        ..Config::default()
    };
    assert!(shady.editor_has_warnings());
}
