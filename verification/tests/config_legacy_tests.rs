use rcdir::color::BC_BLUE;
use rcdir::color::FC_BLUE;
use rcdir::color::FC_CYAN;
use rcdir::color::FC_GREEN;
use rcdir::color::FC_LIGHT_BLUE;
use rcdir::color::FC_LIGHT_CYAN;
use rcdir::color::FC_LIGHT_GREEN;
use rcdir::color::FC_LIGHT_GREY;
use rcdir::color::FC_MAGENTA;
use rcdir::color::FC_MASK;
use rcdir::color::FC_RED;
use rcdir::color::FC_YELLOW;
use rcdir::config::Attribute;
use rcdir::config::AttributeSource;
use rcdir::config::Config;
use rcdir::config::FileDisplayStyle;
use rcdir::config::RCDIR_ENV_VAR_NAME;
use rcdir::environment_provider::MockEnvironmentProvider;
use rcdir::icon_mapping::DEFAULT_EXTENSION_ICONS;
use rcdir::icon_mapping::NF_DEV_RUST;

fn make_config(env_value: Option<&str>) -> Config {
    let mut config = Config::new();
    let mut mock = MockEnvironmentProvider::new();
    if let Some(val) = env_value {
        mock.set(RCDIR_ENV_VAR_NAME, val);
    }
    config.initialize_with_provider(FC_LIGHT_GREY, &mock);
    config
}


#[test]
fn config_default_date_color() {
    let config = make_config(None);
    assert_eq!(config.attributes[Attribute::Date as usize], FC_RED);
}

#[test]
fn config_default_size_color() {
    let config = make_config(None);
    assert_eq!(config.attributes[Attribute::Size as usize], FC_YELLOW);
}

#[test]
fn config_default_directory_color() {
    let config = make_config(None);
    assert_eq!(config.attributes[Attribute::Directory as usize], FC_LIGHT_BLUE);
}

#[test]
fn config_default_extension_count() {
    let config = make_config(None);
    // Should have all the default extensions
    assert!(config.extension_colors.len() >= 70);
}

#[test]
fn config_default_cpp_color() {
    let config = make_config(None);
    assert_eq!(*config.extension_colors.get(".cpp").unwrap(), FC_LIGHT_GREEN);
}

#[test]
fn config_default_zip_color() {
    let config = make_config(None);
    assert_eq!(*config.extension_colors.get(".zip").unwrap(), FC_MAGENTA);
}

#[test]
fn config_env_switch_wide() {
    let config = make_config(Some("W"));
    assert_eq!(config.wide_listing, Some(true));
}

#[test]
fn config_env_switch_disable() {
    let config = make_config(Some("M-"));
    assert_eq!(config.multi_threaded, Some(false));
}

#[test]
fn config_env_switch_multiple() {
    let config = make_config(Some("W;S;P"));
    assert_eq!(config.wide_listing, Some(true));
    assert_eq!(config.recurse, Some(true));
    assert_eq!(config.perf_timer, Some(true));
}

#[test]
fn config_env_switch_owner() {
    let config = make_config(Some("Owner"));
    assert_eq!(config.show_owner, Some(true));
}

#[test]
fn config_env_switch_streams() {
    let config = make_config(Some("Streams"));
    assert_eq!(config.show_streams, Some(true));
}

#[test]
fn config_env_display_attribute_override() {
    let config = make_config(Some("D=LightGreen"));
    assert_eq!(config.attributes[Attribute::Date as usize], FC_LIGHT_GREEN);
    assert_eq!(config.attribute_sources[Attribute::Date as usize], AttributeSource::Environment);
}

#[test]
fn config_env_extension_override() {
    let config = make_config(Some(".rs=Cyan"));
    assert_eq!(*config.extension_colors.get(".rs").unwrap(), FC_CYAN);
    assert_eq!(*config.extension_sources.get(".rs").unwrap(), AttributeSource::Environment);
}

#[test]
fn config_env_extension_override_case_insensitive() {
    let config = make_config(Some(".RS=Yellow"));
    // Stored lowercase
    assert_eq!(*config.extension_colors.get(".rs").unwrap(), FC_YELLOW);
}

#[test]
fn config_env_color_with_background() {
    let config = make_config(Some("D=LightCyan on Blue"));
    assert_eq!(config.attributes[Attribute::Date as usize], FC_LIGHT_CYAN | BC_BLUE);
}

#[test]
fn config_env_file_attribute_override() {
    let config = make_config(Some("Attr:H=Yellow"));
    let style = config.file_attr_colors.get(&0x02).unwrap();
    assert_eq!(style.attr, FC_YELLOW);
    assert_eq!(style.source, AttributeSource::Environment);
}

#[test]
fn config_env_prefix_error() {
    let config = make_config(Some("/W"));
    assert!(config.last_parse_result.has_issues());
}

#[test]
fn config_env_invalid_color_error() {
    let config = make_config(Some("D=Purple"));
    assert!(config.last_parse_result.has_issues());
}

#[test]
fn config_env_combined_valid_and_invalid() {
    let config = make_config(Some("W;D=Purple;S=Yellow"));
    assert_eq!(config.wide_listing, Some(true));
    // D=Purple fails, S=Yellow succeeds
    assert_eq!(config.attributes[Attribute::Size as usize], FC_YELLOW);
    assert!(config.last_parse_result.has_issues());
}

#[test]
fn config_attribute_from_name_valid() {
    assert_eq!(Attribute::from_name("Date"), Some(Attribute::Date));
    assert_eq!(Attribute::from_name("Error"), Some(Attribute::Error));
    assert_eq!(Attribute::from_name("Default"), Some(Attribute::Default));
}

#[test]
fn config_attribute_from_name_invalid() {
    assert_eq!(Attribute::from_name("invalid"), None);
    assert_eq!(Attribute::from_name(""), None);
}

#[test]
fn config_attribute_name_roundtrip() {
    for attr in &Attribute::ALL {
        let name = attr.name();
        assert_eq!(Attribute::from_name(name), Some(*attr));
    }
}

#[test]
fn config_entry_without_comma_backward_compat() {
    let cfg = make_config (Some (".py=Green"));

    // Color should be set to Green
    assert_eq!(cfg.extension_colors.get(".py"), Some (&FC_GREEN));

    // Icon should remain at the default (populated from DEFAULT_EXTENSION_ICONS)
    // and NOT be modified or suppressed
    let default_icon = cfg.extension_icons.get(".py");
    assert!(default_icon.is_some(), ".py should have a default icon");
    assert_ne!(*default_icon.unwrap(), '\0', "icon should not be suppressed");

    // No errors
    assert!(cfg.last_parse_result.errors.is_empty());
}

#[test]
fn config_comma_syntax_sets_color_and_icon() {
    let cfg = make_config (Some (".txt=Yellow,A"));

    assert_eq!(cfg.extension_colors.get (".txt"), Some (&FC_YELLOW));
    assert_eq!(cfg.extension_icons.get (".txt"), Some (&'A'));
    assert!(cfg.last_parse_result.errors.is_empty());
}

#[test]
fn config_comma_syntax_suppresses_icon() {
    let cfg = make_config (Some (".txt=Red,"));

    assert_eq!(cfg.extension_colors.get (".txt"), Some (&FC_RED));
    assert_eq!(cfg.extension_icons.get (".txt"), Some (&'\0'));
    assert!(cfg.last_parse_result.errors.is_empty());
}

#[test]
fn config_comma_syntax_icon_only() {
    let cfg = make_config (Some (".rs=,X"));

    // Color should remain at whatever the default was
    let before_cfg = make_config (None);
    let default_rs_color = before_cfg.extension_colors.get (".rs").copied();
    assert_eq!(cfg.extension_colors.get (".rs").copied(), default_rs_color);

    // Icon should be 'X'
    assert_eq!(cfg.extension_icons.get (".rs"), Some (&'X'));
    assert!(cfg.last_parse_result.errors.is_empty());
}

#[test]
fn config_test_icon_emission_spacing_contract() {
    const CX_ICON_COLUMN: usize = 2;

    // Active icon: glyph + space = 2
    let style_active = FileDisplayStyle {
        text_attr: 0,
        icon_code_point: Some ('\u{E7A8}'), // NF_DEV_RUST
        icon_suppressed: false,
    };
    let emission = format! ("{} ", style_active.icon_code_point.unwrap());
    assert_eq! (emission.chars().count(), CX_ICON_COLUMN,
        "Icon glyph + space must be {} chars", CX_ICON_COLUMN);

    // Suppressed icon: 2 spaces
    let style_suppressed = FileDisplayStyle {
        text_attr: 0,
        icon_code_point: None,
        icon_suppressed: true,
    };
    assert! (style_suppressed.icon_code_point.is_none());
    assert! (style_suppressed.icon_suppressed);
    let blank_emission = "  "; // 2 spaces when icon suppressed
    assert_eq! (blank_emission.len(), CX_ICON_COLUMN,
        "Suppressed icon padding must be {} chars", CX_ICON_COLUMN);

    // No icon at all: nothing emitted (0 chars)
    let style_none = FileDisplayStyle {
        text_attr: 0,
        icon_code_point: None,
        icon_suppressed: false,
    };
    assert! (style_none.icon_code_point.is_none());
    assert! (!style_none.icon_suppressed);
}

#[test]
fn config_test_invalid_background_rejects_entire_entry() {
    let config = make_config (Some (".txt=Blue on Chartreuse"));

    // Error should have been recorded
    assert! (!config.last_parse_result.errors.is_empty(),
        "Should record error for invalid background color");

    let err = &config.last_parse_result.errors[0];
    assert_eq! (err.message, "Invalid background color");
    assert_eq! (err.invalid_text, "Chartreuse");

    // The extension should retain its DEFAULT color, not the invalid override.
    // It should not have Blue foreground (0x01) applied.
    if let Some (&attr) = config.extension_colors.get (".txt") {
        assert_ne! (attr & FC_MASK, 0x01, // FC_BLUE = 0x01
            "Invalid bg entry should not apply foreground color either");
    }
}

#[test]
fn config_test_same_fore_back_color_rejected() {
    let config = make_config (Some (".txt=Blue on Blue"));

    // Error should have been recorded
    assert! (!config.last_parse_result.errors.is_empty(),
        "Should record error for same fore/back color");

    let err = &config.last_parse_result.errors[0];
    assert_eq! (err.message, "Foreground and background colors are the same");

    // The extension should retain its DEFAULT color, not the Blue on Blue override.
    if let Some (&attr) = config.extension_colors.get (".txt") {
        assert_ne! (attr, 0x01 | 0x10, // Blue fore | Blue back
            "Same fore/back entry should not apply color");
    }
}
