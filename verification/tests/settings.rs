use komorebi_tray_grid::autostart::{
    disable, enable, is_enabled, quoted_path, set_enabled, AutostartError, DeleteOutcome,
};
use komorebi_tray_grid::config::{
    build_theme, default_dark_colors, default_light_colors, default_theme_from_colors,
    is_color_readable, is_config_readable, load_settings, parse_hex_color, try_load_settings,
    AppConfig, AppSettings, Channel, ColorConfig, ColorError, ColorField, ColorsConfig,
    ConfigError, ConfigSource, MenuConfig, ThemeSet,
};
use komorebi_tray_grid::paths::{default_config_path, default_log_path, join, log_file_path};
use komorebi_tray_grid::single_instance::{
    acquire, mutex_name_wide, AcquireError, Acquisition, InstanceGuard, MUTEX_NAME,
};
use komorebi_tray_grid::windows_theme::ColorScheme;

#[test]
fn parse_rgb_assumes_opaque_alpha() {
    assert_eq!(parse_hex_color("#112233").unwrap(), [0x11, 0x22, 0x33, 0xFF]);
}

#[test]
fn parse_rgba_uses_given_alpha() {
    assert_eq!(parse_hex_color("#11223344").unwrap(), [0x11, 0x22, 0x33, 0x44]);
}

#[test]
fn parse_requires_hash_prefix() {
    assert!(parse_hex_color("112233").is_err());
}

#[test]
fn parse_rejects_invalid_lengths() {
    assert!(parse_hex_color("#1122").is_err());
    assert!(parse_hex_color("#1122334455").is_err());
}

#[test]
fn colors_are_rejected_for_a_reason() {
    assert_eq!(parse_hex_color(""), Err(ColorError::MissingHash));
    assert_eq!(parse_hex_color("112233"), Err(ColorError::MissingHash));
    assert_eq!(parse_hex_color("#"), Err(ColorError::BadLength));
    assert_eq!(parse_hex_color("#1122334"), Err(ColorError::BadLength));
    assert_eq!(parse_hex_color("#gg2233"), Err(ColorError::Channel(Channel::Red)));
    assert_eq!(parse_hex_color("#112g33"), Err(ColorError::Channel(Channel::Green)));
    assert_eq!(parse_hex_color("#1122-3"), Err(ColorError::Channel(Channel::Blue)));
    assert_eq!(parse_hex_color("#112233 4"), Err(ColorError::Channel(Channel::Alpha)));
    // A sign and one digit are a number; both cases are digits.
    assert_eq!(parse_hex_color("#+fAb+0"), Ok([0x0f, 0xab, 0x00, 0xff]));
    assert_eq!(parse_hex_color("#++2233"), Err(ColorError::Channel(Channel::Red)));
    assert_eq!(parse_hex_color("#f+2233"), Err(ColorError::Channel(Channel::Red)));
    // Two bytes of one character are no number.
    assert_eq!(parse_hex_color("#é2233"), Err(ColorError::Channel(Channel::Red)));
}

#[test]
fn colors_that_cannot_be_taken_apart_are_recognized() {
    assert!(is_color_readable("#112233"));
    assert!(is_color_readable("é"));
    assert!(is_color_readable("#é2233"));
    // A character lies across the end of the first channel.
    assert!(!is_color_readable("#1é233"));
    assert!(!is_color_readable("#€233"));
    // It is never reached: the channel before it is no number.
    assert!(is_color_readable("#gg2é3"));
    assert!(!is_color_readable("#112é3"));
    assert!(is_color_readable("#112233é"));
    assert!(!is_color_readable("#11223€"));
}

fn parsed(dark: ColorConfig, light: ColorConfig) -> AppConfig {
    AppConfig {
        colors: ColorsConfig { dark, light },
        menu: MenuConfig {
            show_hotkey: Some("Ctrl+K".into()),
            max_title_length: 7,
            max_combined_title_length: 8,
        },
    }
}

#[test]
fn defaults_have_shades_for_the_number_of_windows() {
    let themes = ThemeSet::default();
    let dark = themes.for_scheme(ColorScheme::Dark);
    assert_eq!(dark, default_theme_from_colors(default_dark_colors()));
    assert_eq!(dark.focused, [0x2E, 0x9B, 0xFF, 0xFF]);
    assert_eq!(dark.non_empty_1, [0x6B, 0x6B, 0x6B, 0xFF]);
    assert_eq!(dark.non_empty_2, [0x8C, 0x8C, 0x8C, 0xFF]);
    assert_eq!(dark.non_empty_3_plus, [0xB0, 0xB0, 0xB0, 0xFF]);
    assert_eq!(dark.full_screen_border, [0xFF, 0xD5, 0x00, 0xFF]);
    assert_eq!(dark.active_monitor_border, [0x2E, 0x9B, 0xFF, 0xFF]);
    assert_eq!(dark.inactive_monitor_border, [0x80, 0x80, 0x80, 0xFF]);
    assert_eq!(dark.empty, [0, 0, 0, 0]);
    let light = themes.for_scheme(ColorScheme::Light);
    assert_eq!(light.focused, [0x00, 0x67, 0xC0, 0xFF]);
    assert_eq!(light.non_empty_1, [0x86, 0x86, 0x86, 0xFF]);
    assert_eq!(light.non_empty_2, [0x6A, 0x6A, 0x6A, 0xFF]);
    assert_eq!(light.non_empty_3_plus, [0x4F, 0x4F, 0x4F, 0xFF]);
    assert_eq!(light.full_screen_border, [0xC7, 0xA0, 0x00, 0xFF]);
    assert_eq!(light.active_monitor_border, [0x00, 0x67, 0xC0, 0xFF]);
    assert_eq!(light.inactive_monitor_border, [0x6A, 0x6A, 0x6A, 0xFF]);
    assert_eq!(light.empty, [0, 0, 0, 0]);
    let settings = AppSettings::default();
    assert_eq!(settings.show_hotkey, None);
    assert_eq!(settings.max_title_length, 64);
    assert_eq!(settings.max_combined_title_length, 96);
}

#[test]
fn a_configuration_becomes_settings() {
    let light = ColorConfig { focused: "#010203".into(), ..default_light_colors() };
    let config = parsed(default_dark_colors(), light);
    assert!(is_config_readable(&config));
    let settings = try_load_settings(ConfigSource::Parsed(config)).unwrap();
    assert_eq!(settings.themes.dark, ThemeSet::default().dark);
    assert_eq!(settings.themes.light.focused, [1, 2, 3, 0xFF]);
    assert_eq!(settings.themes.light.empty, [0, 0, 0, 0]);
    assert_eq!(settings.show_hotkey.as_deref(), Some("Ctrl+K"));
    assert_eq!(settings.max_title_length, 7);
    assert_eq!(settings.max_combined_title_length, 8);
    assert_eq!(settings.clone().show_hotkey, settings.show_hotkey);
}

#[test]
fn a_bad_color_is_named() {
    let fields: [(fn(&mut ColorConfig) -> &mut String, ColorField); 8] = [
        (|c| &mut c.focused, ColorField::Focused),
        (|c| &mut c.non_empty_1, ColorField::NonEmpty1),
        (|c| &mut c.non_empty_2, ColorField::NonEmpty2),
        (|c| &mut c.non_empty_3_plus, ColorField::NonEmpty3Plus),
        (|c| &mut c.full_screen_border, ColorField::FullScreenBorder),
        (|c| &mut c.active_monitor_border, ColorField::ActiveMonitorBorder),
        (|c| &mut c.inactive_monitor_border, ColorField::InactiveMonitorBorder),
        (|c| &mut c.empty, ColorField::Empty),
    ];
    let names = [
        "focused",
        "non_empty_1",
        "non_empty_2",
        "non_empty_3_plus",
        "full_screen_border",
        "active_monitor_border",
        "inactive_monitor_border",
        "empty",
    ];
    for ((get, field), name) in fields.into_iter().zip(names) {
        let mut config = default_dark_colors();
        *get(&mut config) = "red".into();
        let expected = ConfigError::Color {
            scheme: ColorScheme::Light,
            field,
            error: ColorError::MissingHash,
        };
        assert_eq!(build_theme(&config, ColorScheme::Light), Err(expected));
        assert_eq!(expected.message(), format!("parse colors.light.{name} as hex color"));
        assert_eq!(expected.message_for("x.json"), expected.message());
        match try_load_settings(ConfigSource::Parsed(parsed(default_dark_colors(), config))) {
            Err(e) => assert_eq!(e, expected),
            Ok(_) => panic!("the color is rejected"),
        }
    }
    // The dark colors come first, and the first bad one counts.
    let bad = || ColorConfig {
        non_empty_2: "#12".into(),
        empty: "x".into(),
        ..default_dark_colors()
    };
    match try_load_settings(ConfigSource::Parsed(parsed(bad(), bad()))) {
        Err(e) => {
            assert_eq!(
                e,
                ConfigError::Color {
                    scheme: ColorScheme::Dark,
                    field: ColorField::NonEmpty2,
                    error: ColorError::BadLength
                }
            );
            assert_eq!(e.message(), "parse colors.dark.non_empty_2 as hex color");
        }
        Ok(_) => panic!("the color is rejected"),
    }
    let settings = load_settings(ConfigSource::Parsed(parsed(bad(), bad())));
    assert_eq!(settings.themes, ThemeSet::default());
    assert_eq!(settings.max_title_length, 64);
}

#[test]
fn errors_say_what_is_wrong() {
    assert_eq!(ConfigError::Unreadable.message(), "read config file");
    assert_eq!(ConfigError::Unreadable.message_for("x.json"), "read config file x.json");
    assert_eq!(ConfigError::Malformed.message(), "parse config file as JSON");
    assert_eq!(ConfigError::Malformed.message_for("x.json"), "parse config file x.json as JSON");
    for (text, message) in [
        ("112233", "must start with '#'"),
        ("#1122", "must be #RRGGBB or #RRGGBBAA"),
        ("#x12233", "invalid red channel"),
        ("#11x233", "invalid green channel"),
        ("#1122x3", "invalid blue channel"),
        ("#112233x4", "invalid alpha channel"),
    ] {
        assert_eq!(parse_hex_color(text).unwrap_err().message(), message);
    }
}

#[test]
fn settings_default_where_there_is_no_file() {
    for source in [ConfigSource::NoPath, ConfigSource::Missing] {
        assert_eq!(try_load_settings(source).unwrap().max_title_length, 64);
    }
    assert!(matches!(
        try_load_settings(ConfigSource::Unreadable),
        Err(ConfigError::Unreadable)
    ));
    assert!(matches!(try_load_settings(ConfigSource::Malformed), Err(ConfigError::Malformed)));
    assert_eq!(load_settings(ConfigSource::Unreadable).max_combined_title_length, 96);
    assert_eq!(load_settings(ConfigSource::Malformed).show_hotkey, None);
    let menu = AppConfig::default().menu;
    assert_eq!((menu.max_title_length, menu.max_combined_title_length), (0, 0));
}

#[test]
fn unreadable_colors_matter_only_where_they_are_read() {
    let unreadable = || ColorConfig { empty: "#1é233".into(), ..default_dark_colors() };
    assert!(!is_config_readable(&parsed(unreadable(), default_light_colors())));
    assert!(!is_config_readable(&parsed(default_dark_colors(), unreadable())));
    let bad = ColorConfig { focused: "red".into(), ..default_dark_colors() };
    assert!(is_config_readable(&parsed(bad, unreadable())));
}

#[test]
fn quoted_path_wraps_in_quotes() {
    let p = r"C:\Program Files\komorebi-tray-grid\komorebi-tray-grid.exe";
    assert_eq!(
        quoted_path(p),
        r#""C:\Program Files\komorebi-tray-grid\komorebi-tray-grid.exe""#
    );
}

#[test]
fn quoted_path_escapes_embedded_quotes() {
    let p = r#"C:\weird"name.exe"#;
    assert_eq!(quoted_path(p), r#""C:\weird""name.exe""#);
}

#[test]
fn autostart_follows_the_registry() {
    assert!(!is_enabled(&None));
    assert!(is_enabled(&Some("anything".into())));
    assert_eq!(enable(Some(r"C:\a b.exe")), Ok(r#""C:\a b.exe""#.to_string()));
    assert_eq!(enable(None), Err(AutostartError::NoExecutable));
    assert_eq!(disable(DeleteOutcome::Deleted), Ok(()));
    assert_eq!(disable(DeleteOutcome::NotFound), Ok(()));
    assert_eq!(disable(DeleteOutcome::Failed), Err(AutostartError::Delete));
    for enabled in [true, false] {
        assert_eq!(set_enabled(enabled, Ok(()), &None), enabled);
        assert!(!set_enabled(enabled, Err(AutostartError::Write), &None));
        assert!(set_enabled(enabled, Err(AutostartError::OpenKey), &Some("x".into())));
    }
    // A removal that succeeds twice: the first one deletes the entry, the second
    // one finds none.
    assert!(!set_enabled(false, disable(DeleteOutcome::Deleted), &None));
    assert!(!set_enabled(false, disable(DeleteOutcome::NotFound), &None));
    // One that fails leaves the entry.
    assert!(set_enabled(false, disable(DeleteOutcome::Failed), &Some("x".into())));
}

#[test]
fn a_second_instance_is_noticed() {
    assert_eq!(
        acquire(Ok(7), 0),
        Ok(Acquisition::Acquired(InstanceGuard { handle: 7 }))
    );
    assert_eq!(acquire(Ok(7), 183), Ok(Acquisition::AlreadyRunning));
    assert_eq!(acquire(Err(5), 183), Err(AcquireError { code: 5 }));
    assert_eq!(MUTEX_NAME, r"Local\komorebi-tray-grid-singleton");
    let expected: Vec<u16> = MUTEX_NAME.encode_utf16().chain(std::iter::once(0)).collect();
    assert_eq!(mutex_name_wide(), expected);
}

#[test]
fn names_are_joined_to_paths() {
    assert_eq!(join(r"C:\a", "b"), r"C:\a\b");
    assert_eq!(join(r"C:\a\", "b"), r"C:\a\b");
    assert_eq!(join("C:/a/", "b"), "C:/a/b");
    assert_eq!(join("C:", "b"), "C:b");
    assert_eq!(join("", "b"), "b");
    assert_eq!(join("1:", "b"), r"1:\b");
    // Paths with a verbatim prefix are normalized.
    assert_eq!(join(r"\\?\C:\a", "b"), r"\\?\C:\a\b");
    assert_eq!(join(r"\\?\C:\a\\x\..\.\c\", "b"), r"\\?\C:\a\c\b");
    assert_eq!(join(r"\\?\C:", "b"), r"\\?\C:\b");
    assert_eq!(join(r"\\?\C:\..\a/", "b"), r"\\?\C:\a/\b");
    assert_eq!(join(r"\\?\C:\a", ".."), r"\\?\C:\");
    assert_eq!(join(r"\\?\C:\a\\", ""), r"\\?\C:\a\\");
    assert_eq!(join(r"\\?\UNC\server\share\..\..\a", "b"), r"\\?\UNC\server\share\a\b");
    assert_eq!(join(r"\\?\UNC\server\", "b"), r"\\?\UNC\server\b");
    assert_eq!(join(r"\\?", "b"), r"\\?\b");
    assert_eq!(join(r"C:\a\\x\..", "b"), r"C:\a\\x\..\b");
    // Only a drive at the start of a name is special.
    assert_eq!(join(r"C:\a", "b.txt:c"), r"C:\a\b.txt:c");
    assert_eq!(join(r"C:\a", "1:"), r"C:\a\1:");
    assert_eq!(
        default_config_path(Some(r"C:\r")),
        Some(r"C:\r\komorebi-tray-grid\config.json".into())
    );
    assert_eq!(default_config_path(None), None);
}

#[test]
fn logs_go_where_they_are_asked_for() {
    let local = Some(r"C:\l");
    let temp = Some(r"C:\t");
    assert_eq!(default_log_path(local, temp), r"C:\l\komorebi-tray-grid\komorebi-tray-grid.log");
    assert_eq!(default_log_path(None, temp), r"C:\t\komorebi-tray-grid\komorebi-tray-grid.log");
    assert_eq!(default_log_path(None, None), r".\komorebi-tray-grid\komorebi-tray-grid.log");
    assert_eq!(log_file_path(None, local, temp), None);
    assert_eq!(log_file_path(Some("1"), local, temp), Some(default_log_path(local, temp)));
    assert_eq!(log_file_path(Some("x.log"), local, temp), Some("x.log".into()));
    assert_eq!(log_file_path(Some(""), local, temp), Some("".into()));
}
