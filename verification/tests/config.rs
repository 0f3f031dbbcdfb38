use kapollo::config::{
    config_from_parts, is_known_key, ConfigNotice, section_named, Caps, Color, Config, ConfigError, ConfigSection, RawCaps,
    RawConfig, RawMouse, RawScroll, PER_BLOCK_BYTES_HARD_MAX,
};

#[test]
fn empty_file_gives_defaults() {
    let c = RawConfig::default().into_config().unwrap();
    assert_eq!(c, Config::default());
    assert_eq!(c.leader_char, '/');
    assert_eq!(c.prompt_char, 'λ');
    assert_eq!(c.prompt_color, Color::Red);
    assert_eq!(c.caps, Caps::default());
    assert_eq!(c.caps.per_block_bytes, 1024 * 1024);
    assert_eq!(c.caps.transcript_blocks, 1000);
    assert!(c.mouse.enabled && !c.mouse.copy_on_select);
    assert!(c.clipboard.osc52 && c.clipboard.local_fallback);
    assert_eq!(c.scroll.wheel_lines, 3);
    assert_eq!(c.scroll.scrollback_lines, 10_000);
    assert!(c.status.enabled && c.divider.enabled);
}

#[test]
fn values_override_defaults() {
    let raw = RawConfig {
        shell: Some("/bin/fish".to_string()),
        leader_char: Some(":".to_string()),
        prompt_color: Some("light blue".to_string()),
        caps: Some(RawCaps { transcript_blocks: Some(5), ..RawCaps::default() }),
        mouse: Some(RawMouse { enabled: Some(false), copy_on_select: None }),
        scroll: Some(RawScroll { wheel_lines: Some(7), ..RawScroll::default() }),
        ..RawConfig::default()
    };
    let c = raw.into_config().unwrap();
    assert_eq!(c.shell.as_deref(), Some("/bin/fish"));
    assert_eq!(c.leader_char, ':');
    assert_eq!(c.prompt_color, Color::LightBlue);
    assert_eq!(c.caps.transcript_blocks, 5);
    assert_eq!(c.caps.per_block_lines, 50_000);
    assert!(!c.mouse.enabled);
    assert_eq!(c.scroll.wheel_lines, 7);
    assert_eq!(c.scroll.context_lines, 3);
}

#[test]
fn colors_parse_by_name_hex_and_index() {
    let color = |s: &str| {
        RawConfig { prompt_color: Some(s.to_string()), ..RawConfig::default() }
            .into_config()
            .unwrap()
            .prompt_color
    };
    assert_eq!(color("#FF0000"), Color::Rgb(255, 0, 0));
    assert_eq!(color("10"), Color::Indexed(10));
    assert_eq!(color("grey"), Color::Gray);
    assert_eq!(color("no-such-color"), Color::Red);
}

#[test]
fn per_block_bytes_is_clamped() {
    let raw = RawConfig {
        caps: Some(RawCaps { per_block_bytes: Some(u64::MAX), ..RawCaps::default() }),
        ..RawConfig::default()
    };
    assert_eq!(raw.into_config().unwrap().caps.per_block_bytes, PER_BLOCK_BYTES_HARD_MAX);
}

#[test]
fn leader_must_be_one_char() {
    let raw = RawConfig { leader_char: Some("ab".to_string()), ..RawConfig::default() };
    match raw.into_config() {
        Err(ConfigError::Value(m)) => {
            assert_eq!(m, "leader_char must be exactly one character, got \"ab\"")
        }
        other => panic!("unexpected {other:?}"),
    }
    let raw = RawConfig { prompt_char: Some(String::new()), ..RawConfig::default() };
    match raw.into_config() {
        Err(ConfigError::Value(m)) => {
            assert_eq!(m, "prompt_char must be exactly one character, got \"\"")
        }
        other => panic!("unexpected {other:?}"),
    }
}

#[test]
fn known_keys_per_table() {
    assert!(is_known_key(ConfigSection::Top, "prompt_color"));
    assert!(!is_known_key(ConfigSection::Top, "colour"));
    assert!(is_known_key(ConfigSection::Caps, "transcript_bytes"));
    assert!(!is_known_key(ConfigSection::Caps, "enabled"));
    assert!(is_known_key(ConfigSection::Scroll, "context_lines"));
    assert!(is_known_key(ConfigSection::Divider, "enabled"));
    assert_eq!(section_named("caps"), Some(ConfigSection::Caps));
    assert_eq!(section_named("shell"), None);
}

#[test]
fn unknown_keys_are_reported_per_table_in_order() {
    let s = |v: &[&str]| v.iter().map(|k| k.to_string()).collect::<Vec<String>>();
    let top = s(&["shell", "bogus", "caps"]);
    let caps = s(&["per_block_bytes", "nope"]);
    let status = s(&["enabled", "color"]);
    let r = kapollo::config::unknown_keys(&top, Some(&caps), None, None, None, Some(&status), None);
    assert_eq!(
        r,
        vec![
            (kapollo::config::ConfigSection::Top, "bogus".to_string()),
            (kapollo::config::ConfigSection::Caps, "nope".to_string()),
            (kapollo::config::ConfigSection::Status, "color".to_string()),
        ]
    );
    assert!(kapollo::config::unknown_keys(&s(&["leader_char"]), None, None, None, None, None, None).is_empty());
}

#[test]
fn from_toml_reports_unknown_keys_of_the_known_tables() {
    let text = "shell = \"zsh\"\nbogus = 1\n[caps]\nweird = 2\nper_block_lines = 5\n[extra]\nx = 1\n";
    let raw = RawConfig { shell: Some("zsh".to_string()), ..RawConfig::default() };
    let (config, unknown) = Config::from_toml(text, Ok(raw), std::path::PathBuf::from("/c.toml"));
    assert_eq!(config.unwrap().shell, Some("zsh".to_string()));
    assert_eq!(
        unknown,
        vec![
            (ConfigSection::Top, "bogus".to_string()),
            (ConfigSection::Top, "extra".to_string()),
            (ConfigSection::Caps, "weird".to_string()),
        ]
    );
}

#[test]
fn from_toml_invalid_text_is_a_parse_error_with_no_reports() {
    let (config, unknown) =
        Config::from_toml("shell = ", Ok(RawConfig::default()), std::path::PathBuf::from("/c.toml"));
    assert!(unknown.is_empty());
    match config {
        Err(ConfigError::Parse { path, message }) => {
            assert_eq!(path, std::path::PathBuf::from("/c.toml"));
            assert!(!message.is_empty());
        }
        other => panic!("expected a parse error, got {:?}", other),
    }
}

#[test]
fn config_from_parts_orders_its_errors() {
    let p = std::path::PathBuf::from("/c.toml");
    let (c, u) = config_from_parts(Err("bad keys".to_string()), Err("bad raw".to_string()), p.clone());
    assert!(matches!(c, Err(ConfigError::Parse { ref message, .. }) if message == "bad keys"));
    assert!(u.is_empty());
    let keys = vec![("mouse".to_string(), Some(vec!["enabled".to_string(), "wat".to_string()]))];
    let (c, u) = config_from_parts(Ok(keys.clone()), Err("bad raw".to_string()), p.clone());
    assert!(matches!(c, Err(ConfigError::Parse { ref message, .. }) if message == "bad raw"));
    assert_eq!(u, vec![(ConfigSection::Mouse, "wat".to_string())]);
    let raw = RawConfig { leader_char: Some("ab".to_string()), ..RawConfig::default() };
    let (c, _) = config_from_parts(Ok(keys), Ok(raw), p);
    assert!(matches!(c, Err(ConfigError::Value(_))));
}

#[test]
fn notices_report_an_unknown_color_and_a_clamped_cap() {
    let raw = RawConfig {
        prompt_color: Some("mauve-ish".to_string()),
        caps: Some(RawCaps { per_block_bytes: Some(u64::MAX), ..RawCaps::default() }),
        ..RawConfig::default()
    };
    assert_eq!(
        raw.notices(),
        vec![
            ConfigNotice::UnknownPromptColor("mauve-ish".to_string()),
            ConfigNotice::PerBlockBytesClamped(u64::MAX),
        ]
    );
    assert!(RawConfig { prompt_color: Some("blue".to_string()), ..RawConfig::default() }.notices().is_empty());
    let bad = RawConfig {
        leader_char: Some("ab".to_string()),
        prompt_color: Some("mauve-ish".to_string()),
        ..RawConfig::default()
    };
    assert!(bad.notices().is_empty());
}
