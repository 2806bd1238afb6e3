use tkbar::bar::BarPosition;
use tkbar::components::Component;
use tkbar::conf::{
    default_bar_size_px, default_components, default_true, parse_config, resolve_config, Config,
    ConfigError, ConfigField, ConfigSource, Security,
};

#[test]
fn parses_full_config() {
    let config = parse_config(
        r#"
            position = "top"
            bar_size_px = 90
            components = [
                { logo = "󱄅" },
                "workspaces",
                "spacer",
                "battery",
                "wifi",
                "brightness",
                "volume",
                "clock",
            ]
            "#,
    )
    .unwrap();

    assert_eq!(config.position, BarPosition::Top);
    assert_eq!(config.bar_size_px, 90);
    assert_eq!(config.components.len(), 8);
    assert!(matches!(
        config.components.first(),
        Some(Component::Logo('󱄅'))
    ));
}

#[test]
fn empty_file_falls_back_to_field_defaults() {
    let config = parse_config("").unwrap();
    assert_eq!(config.position, BarPosition::Left);
    assert_eq!(config.bar_size_px, default_bar_size_px());
    assert_eq!(config.components.len(), default_components().len());
}

#[test]
fn rejects_unknown_fields() {
    assert!(parse_config("bogus = 1").is_err());
}

#[test]
fn rejects_unknown_component() {
    assert!(parse_config(r#"components = ["coffee"]"#).is_err());
}

#[test]
fn rejects_unknown_position() {
    assert!(parse_config(r#"position = "diagonal""#).is_err());
}

#[test]
fn missing_file_falls_back_to_hardcoded() {
    let config = resolve_config(&ConfigSource::NotFound).unwrap();
    assert_eq!(config.position, BarPosition::Left);
    assert_eq!(config.bar_size_px, default_bar_size_px());
    assert_eq!(config.components.len(), default_components().len());
}

#[test]
fn loads_partial_config_from_file() {
    let config = resolve_config(&ConfigSource::Contents(b"bar_size_px = 42\n".to_vec())).unwrap();
    assert_eq!(config.bar_size_px, 42);
    assert_eq!(config.components.len(), default_components().len());
}

#[test]
fn hardcoded_config_is_the_documented_default() {
    let config = Config::hardcoded();
    assert_eq!(config.position, BarPosition::Left);
    assert_eq!(config.bar_size_px, 72);
    assert!(config.should_show_empty_workspace);
    assert!(!config.security.should_allow_workspace_label);
    assert_eq!(
        config.components,
        vec![
            Component::Logo('\u{f1105}'),
            Component::Workspaces,
            Component::Spacer,
            Component::Battery,
            Component::Wifi,
            Component::Brightness,
            Component::Volume,
            Component::Clock,
        ]
    );
    assert!(default_true());
    assert_eq!(Security::default(), Security { should_allow_workspace_label: false });
}

#[test]
fn unreadable_or_undetermined_config_falls_back_to_hardcoded() {
    for source in [ConfigSource::NoConfigDir, ConfigSource::Unreadable] {
        let config = resolve_config(&source).unwrap();
        assert_eq!(config.bar_size_px, 72);
        assert_eq!(config.components.len(), 8);
    }
}

#[test]
fn invalid_file_is_an_error() {
    assert!(resolve_config(&ConfigSource::Contents(b"bar_size_px = ".to_vec())).is_err());
    match parse_config("position = = 1") {
        Err(ConfigError::Syntax(message)) => assert!(message.contains("line 1"), "{message}"),
        other => panic!("unexpected {other:?}"),
    }
}

#[test]
fn file_that_is_not_utf8_is_an_error() {
    assert!(matches!(
        resolve_config(&ConfigSource::Contents(b"bar_size_px = \xff".to_vec())),
        Err(ConfigError::NotUtf8)
    ));
    let config = resolve_config(&ConfigSource::Contents("position = \"top\"".as_bytes().to_vec()))
        .unwrap();
    assert_eq!(config.position, BarPosition::Top);
}

#[test]
fn error_kinds_name_the_problem() {
    match parse_config("bogus = 1") {
        Err(ConfigError::UnknownField(k)) => assert_eq!(k.iter().collect::<String>(), "bogus"),
        other => panic!("unexpected {other:?}"),
    }
    match parse_config(r#"components = ["coffee"]"#) {
        Err(ConfigError::UnknownVariant(n)) => assert_eq!(n.iter().collect::<String>(), "coffee"),
        other => panic!("unexpected {other:?}"),
    }
    assert!(matches!(
        parse_config("bar_size_px = -1"),
        Err(ConfigError::InvalidValue(ConfigField::BarSizePx))
    ));
    assert!(matches!(
        parse_config("bar_size_px = \"big\""),
        Err(ConfigError::InvalidType(ConfigField::BarSizePx))
    ));
    assert!(matches!(
        parse_config("components = [\"logo\"]"),
        Err(ConfigError::InvalidType(ConfigField::Components))
    ));
    assert!(matches!(
        parse_config("components = [{ logo = \"ab\" }]"),
        Err(ConfigError::InvalidValue(ConfigField::Components))
    ));
    assert!(matches!(
        parse_config("[security]\n"),
        Err(ConfigError::MissingField(ConfigField::ShouldAllowWorkspaceLabel))
    ));
    assert!(matches!(
        parse_config("[security]\nother = true\n"),
        Err(ConfigError::UnknownField(_))
    ));
    assert!(matches!(
        parse_config("should_show_empty_workspace = 1"),
        Err(ConfigError::InvalidType(ConfigField::ShouldShowEmptyWorkspace))
    ));
}

#[test]
fn accepts_every_setting() {
    let config = parse_config(
        "position = \"right\"\nshould_show_empty_workspace = false\ncomponents = [\"clock\", { spacer = {} }]\n[security]\nshould_allow_workspace_label = true\n",
    )
    .unwrap();
    assert_eq!(config.position, BarPosition::Right);
    assert!(!config.should_show_empty_workspace);
    assert!(config.security.should_allow_workspace_label);
    assert_eq!(config.components, vec![Component::Clock, Component::Spacer]);
    assert_eq!(config.bar_size_px, 72);
    let config = parse_config("position = { bottom = [] }").unwrap();
    assert_eq!(config.position, BarPosition::Bottom);
}
