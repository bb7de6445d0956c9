use rcdir::color::BC_BLACK;
use rcdir::color::BC_BLUE;
use rcdir::color::BC_BROWN;
use rcdir::color::BC_CYAN;
use rcdir::color::BC_DARK_GREY;
use rcdir::color::BC_GREEN;
use rcdir::color::BC_LIGHT_BLUE;
use rcdir::color::BC_LIGHT_CYAN;
use rcdir::color::BC_LIGHT_GREEN;
use rcdir::color::BC_LIGHT_GREY;
use rcdir::color::BC_LIGHT_MAGENTA;
use rcdir::color::BC_LIGHT_RED;
use rcdir::color::BC_MAGENTA;
use rcdir::color::BC_RED;
use rcdir::color::BC_WHITE;
use rcdir::color::BC_YELLOW;
use rcdir::color::FC_BLACK;
use rcdir::color::FC_BLUE;
use rcdir::color::FC_BROWN;
use rcdir::color::FC_CYAN;
use rcdir::color::FC_DARK_GREY;
use rcdir::color::FC_GREEN;
use rcdir::color::FC_LIGHT_BLUE;
use rcdir::color::FC_LIGHT_CYAN;
use rcdir::color::FC_LIGHT_GREEN;
use rcdir::color::FC_LIGHT_GREY;
use rcdir::color::FC_LIGHT_MAGENTA;
use rcdir::color::FC_LIGHT_RED;
use rcdir::color::FC_MAGENTA;
use rcdir::color::FC_MASK;
use rcdir::color::FC_RED;
use rcdir::color::FC_WHITE;
use rcdir::color::FC_YELLOW;
use rcdir::color::parse_color_name;
use rcdir::color::parse_color_spec;
use rcdir::command_line::SizeFormat;
use rcdir::config::Attribute;
use rcdir::config::AttributeSource;
use rcdir::config::Config;
use rcdir::config::FileDisplayStyle;
use rcdir::config::RCDIR_ENV_VAR_NAME;
use rcdir::environment_provider::MockEnvironmentProvider;
use rcdir::icon_mapping::DEFAULT_EXTENSION_ICONS;
use rcdir::icon_mapping::NF_DEV_RUST;
use rcdir::results_displayer::format_number_with_separators;

fn make_config(env_value: Option<&str>) -> Config {
    let mut config = Config::new();
    let mut mock = MockEnvironmentProvider::new();
    if let Some(val) = env_value {
        mock.set(RCDIR_ENV_VAR_NAME, val);
    }
    config.initialize_with_provider(FC_LIGHT_GREY, &mock);
    config
}

fn make_config_with_file(file_lines: &[&str], env_value: Option<&str>) -> Config {
    let mut config = Config::new();
    let mut mock = MockEnvironmentProvider::new();
    mock.set("USERPROFILE", "C:\\Users\\test");
    if let Some(val) = env_value {
        mock.set(RCDIR_ENV_VAR_NAME, val);
    }
    config.attributes[Attribute::Default as usize] = FC_LIGHT_GREY;
    config.attributes[Attribute::Date as usize] = FC_RED;
    config.attributes[Attribute::Time as usize] = FC_BROWN;
    config.attributes[Attribute::FileAttributePresent as usize] = FC_CYAN;
    config.attributes[Attribute::FileAttributeNotPresent as usize] = FC_DARK_GREY;
    config.attributes[Attribute::Size as usize] = FC_YELLOW;
    config.attributes[Attribute::Directory as usize] = FC_LIGHT_BLUE;
    config.attributes[Attribute::Information as usize] = FC_CYAN;
    config.attributes[Attribute::InformationHighlight as usize] = FC_WHITE;
    config.attributes[Attribute::SeparatorLine as usize] = FC_LIGHT_BLUE;
    config.attributes[Attribute::Error as usize] = FC_LIGHT_RED;
    config.attributes[Attribute::Owner as usize] = FC_GREEN;
    config.attributes[Attribute::Stream as usize] = FC_DARK_GREY;
    config.attributes[Attribute::CloudStatusCloudOnly as usize] = FC_LIGHT_BLUE;
    config.attributes[Attribute::CloudStatusLocallyAvailable as usize] = FC_LIGHT_GREEN;
    config.attributes[Attribute::CloudStatusAlwaysLocallyAvailable as usize] = FC_LIGHT_GREEN;
    config.attributes[Attribute::TreeConnector as usize] = FC_DARK_GREY;
    config.initialize_extension_colors();
    config.initialize_file_attr_colors();
    config.initialize_extension_icons();
    config.initialize_well_known_dir_icons();
    let lines: Vec<String> = file_lines.iter().map(|s| s.to_string()).collect();
    config.config_file_path = "C:\\Users\\test\\.rcdirconfig".into();
    config.config_file_loaded = true;
    config.process_config_lines(&lines);
    config.apply_user_color_overrides(&mock);
    config
}


#[test]
fn mod_default_date_color() {
    let config = make_config(None);
    assert_eq!(config.attributes[Attribute::Date as usize], FC_RED);
}

#[test]
fn mod_default_size_color() {
    let config = make_config(None);
    assert_eq!(config.attributes[Attribute::Size as usize], FC_YELLOW);
}

#[test]
fn mod_default_directory_color() {
    let config = make_config(None);
    assert_eq!(config.attributes[Attribute::Directory as usize], FC_LIGHT_BLUE);
}

#[test]
fn mod_default_extension_count() {
    let config = make_config(None);
    // Should have all the default extensions
    assert!(config.extension_colors.len() >= 70);
}

#[test]
fn mod_default_cpp_color() {
    let config = make_config(None);
    assert_eq!(*config.extension_colors.get(".cpp").unwrap(), FC_LIGHT_GREEN);
}

#[test]
fn mod_default_zip_color() {
    let config = make_config(None);
    assert_eq!(*config.extension_colors.get(".zip").unwrap(), FC_MAGENTA);
}

#[test]
fn mod_env_switch_wide() {
    let config = make_config(Some("W"));
    assert_eq!(config.wide_listing, Some(true));
}

#[test]
fn mod_env_switch_disable() {
    let config = make_config(Some("M-"));
    assert_eq!(config.multi_threaded, Some(false));
}

#[test]
fn mod_env_switch_multiple() {
    let config = make_config(Some("W;S;P"));
    assert_eq!(config.wide_listing, Some(true));
    assert_eq!(config.recurse, Some(true));
    assert_eq!(config.perf_timer, Some(true));
}

#[test]
fn mod_env_switch_owner() {
    let config = make_config(Some("Owner"));
    assert_eq!(config.show_owner, Some(true));
}

#[test]
fn mod_env_switch_streams() {
    let config = make_config(Some("Streams"));
    assert_eq!(config.show_streams, Some(true));
}

#[test]
fn mod_env_display_attribute_override() {
    let config = make_config(Some("D=LightGreen"));
    assert_eq!(config.attributes[Attribute::Date as usize], FC_LIGHT_GREEN);
    assert_eq!(config.attribute_sources[Attribute::Date as usize], AttributeSource::Environment);
}

#[test]
fn mod_env_extension_override() {
    let config = make_config(Some(".rs=Cyan"));
    assert_eq!(*config.extension_colors.get(".rs").unwrap(), FC_CYAN);
    assert_eq!(*config.extension_sources.get(".rs").unwrap(), AttributeSource::Environment);
}

#[test]
fn mod_env_extension_override_case_insensitive() {
    let config = make_config(Some(".RS=Yellow"));
    // Stored lowercase
    assert_eq!(*config.extension_colors.get(".rs").unwrap(), FC_YELLOW);
}

#[test]
fn mod_env_color_with_background() {
    let config = make_config(Some("D=LightCyan on Blue"));
    assert_eq!(config.attributes[Attribute::Date as usize], FC_LIGHT_CYAN | BC_BLUE);
}

#[test]
fn mod_env_file_attribute_override() {
    let config = make_config(Some("Attr:H=Yellow"));
    let style = config.file_attr_colors.get(&0x02).unwrap();
    assert_eq!(style.attr, FC_YELLOW);
    assert_eq!(style.source, AttributeSource::Environment);
}

#[test]
fn mod_env_prefix_error() {
    let config = make_config(Some("/W"));
    assert!(config.last_parse_result.has_issues());
}

#[test]
fn mod_env_invalid_color_error() {
    let config = make_config(Some("D=Purple"));
    assert!(config.last_parse_result.has_issues());
}

#[test]
fn mod_env_combined_valid_and_invalid() {
    let config = make_config(Some("W;D=Purple;S=Yellow"));
    assert_eq!(config.wide_listing, Some(true));
    // D=Purple fails, S=Yellow succeeds
    assert_eq!(config.attributes[Attribute::Size as usize], FC_YELLOW);
    assert!(config.last_parse_result.has_issues());
}

#[test]
fn mod_attribute_from_name_valid() {
    assert_eq!(Attribute::from_name("Date"), Some(Attribute::Date));
    assert_eq!(Attribute::from_name("Error"), Some(Attribute::Error));
    assert_eq!(Attribute::from_name("Default"), Some(Attribute::Default));
}

#[test]
fn mod_attribute_from_name_invalid() {
    assert_eq!(Attribute::from_name("invalid"), None);
    assert_eq!(Attribute::from_name(""), None);
}

#[test]
fn mod_attribute_name_roundtrip() {
    for attr in &Attribute::ALL {
        let name = attr.name();
        assert_eq!(Attribute::from_name(name), Some(*attr));
    }
}

#[test]
fn mod_attribute_count() {
    assert_eq!(Attribute::COUNT, 17);
    assert_eq!(Attribute::ALL.len(), 17);
}

#[test]
fn mod_entry_without_comma_backward_compat() {
    let cfg = make_config (Some (".py=Green"));

    // Color should be set to Green
    assert_eq!(cfg.extension_colors.get(".py"), Some (&FC_GREEN));

    // Icon should remain at the default (populated from DEFAULT_EXTENSION_ICONS)
    // and NOT be modified or suppressed
    let default_icon = cfg.extension_icons.get(".py");
    assert!(default_icon.is_some(), ".py should have a default icon");
    assert_ne!(*default_icon.unwrap(), '\0', "icon should not be suppressed");

    // No errors
    assert!(cfg.last_parse_result.errors.is_empty());
}

#[test]
fn mod_comma_syntax_sets_color_and_icon() {
    let cfg = make_config (Some (".txt=Yellow,A"));

    assert_eq!(cfg.extension_colors.get (".txt"), Some (&FC_YELLOW));
    assert_eq!(cfg.extension_icons.get (".txt"), Some (&'A'));
    assert!(cfg.last_parse_result.errors.is_empty());
}

#[test]
fn mod_comma_syntax_suppresses_icon() {
    let cfg = make_config (Some (".txt=Red,"));

    assert_eq!(cfg.extension_colors.get (".txt"), Some (&FC_RED));
    assert_eq!(cfg.extension_icons.get (".txt"), Some (&'\0'));
    assert!(cfg.last_parse_result.errors.is_empty());
}

#[test]
fn mod_comma_syntax_icon_only() {
    let cfg = make_config (Some (".rs=,X"));

    // Color should remain at whatever the default was
    let before_cfg = make_config (None);
    let default_rs_color = before_cfg.extension_colors.get (".rs").copied();
    assert_eq!(cfg.extension_colors.get (".rs").copied(), default_rs_color);

    // Icon should be 'X'
    assert_eq!(cfg.extension_icons.get (".rs"), Some (&'X'));
    assert!(cfg.last_parse_result.errors.is_empty());
}

#[test]
fn mod_test_icon_emission_spacing_contract() {
    const CX_ICON_COLUMN: usize = 2;

    // Active icon: glyph + space = 2
    let style_active = FileDisplayStyle {
        text_attr: 0,
        icon_code_point: Some ('\u{E7A8}'), // NF_DEV_RUST
        icon_suppressed: false,
    };
    let emission = format! ("{} ", style_active.icon_code_point.unwrap());
    assert_eq! (emission.chars().count(), CX_ICON_COLUMN,
        "Icon glyph + space must be {} chars", CX_ICON_COLUMN);

    // Suppressed icon: 2 spaces
    let style_suppressed = FileDisplayStyle {
        text_attr: 0,
        icon_code_point: None,
        icon_suppressed: true,
    };
    assert! (style_suppressed.icon_code_point.is_none());
    assert! (style_suppressed.icon_suppressed);
    let blank_emission = "  "; // 2 spaces when icon suppressed
    assert_eq! (blank_emission.len(), CX_ICON_COLUMN,
        "Suppressed icon padding must be {} chars", CX_ICON_COLUMN);

    // No icon at all: nothing emitted (0 chars)
    let style_none = FileDisplayStyle {
        text_attr: 0,
        icon_code_point: None,
        icon_suppressed: false,
    };
    assert! (style_none.icon_code_point.is_none());
    assert! (!style_none.icon_suppressed);
}

#[test]
fn mod_test_invalid_background_rejects_entire_entry() {
    let config = make_config (Some (".txt=Blue on Chartreuse"));

    // Error should have been recorded
    assert! (!config.last_parse_result.errors.is_empty(),
        "Should record error for invalid background color");

    let err = &config.last_parse_result.errors[0];
    assert_eq! (err.message, "Invalid background color");
    assert_eq! (err.invalid_text, "Chartreuse");

    // The extension should retain its DEFAULT color, not the invalid override.
    // It should not have Blue foreground (0x01) applied.
    if let Some (&attr) = config.extension_colors.get (".txt") {
        assert_ne! (attr & FC_MASK, 0x01, // FC_BLUE = 0x01
            "Invalid bg entry should not apply foreground color either");
    }
}

#[test]
fn mod_test_same_fore_back_color_rejected() {
    let config = make_config (Some (".txt=Blue on Blue"));

    // Error should have been recorded
    assert! (!config.last_parse_result.errors.is_empty(),
        "Should record error for same fore/back color");

    let err = &config.last_parse_result.errors[0];
    assert_eq! (err.message, "Foreground and background colors are the same");

    // The extension should retain its DEFAULT color, not the Blue on Blue override.
    if let Some (&attr) = config.extension_colors.get (".txt") {
        assert_ne! (attr, 0x01 | 0x10, // Blue fore | Blue back
            "Same fore/back entry should not apply color");
    }
}

#[test]
fn env_var_tree_sets_tree_true () {
    let config = make_config (Some ("Tree"));
    assert_eq! (config.tree, Some (true));
}

#[test]
fn env_var_tree_disable_sets_tree_false () {
    let config = make_config (Some ("Tree-"));
    assert_eq! (config.tree, Some (false));
}

#[test]
fn env_var_depth_sets_max_depth () {
    let config = make_config (Some ("Depth=5"));
    assert_eq! (config.max_depth, Some (5));
}

#[test]
fn env_var_tree_indent_sets_tree_indent () {
    let config = make_config (Some ("TreeIndent=2"));
    assert_eq! (config.tree_indent, Some (2));
}

#[test]
fn env_var_tree_with_depth_and_indent_parses_all () {
    let config = make_config (Some ("Tree;Depth=3;TreeIndent=6"));
    assert_eq! (config.tree, Some (true));
    assert_eq! (config.max_depth, Some (3));
    assert_eq! (config.tree_indent, Some (6));
}

#[test]
fn env_var_depth_invalid_records_error () {
    let config = make_config (Some ("Depth=foo"));
    assert! (config.last_parse_result.has_issues());
}

#[test]
fn env_var_tree_indent_out_of_range_records_error () {
    let config = make_config (Some ("TreeIndent=10"));
    assert! (config.last_parse_result.has_issues());
}

#[test]
fn env_var_size_auto_sets_size_format () {
    let config = make_config (Some ("Size=Auto"));
    assert_eq! (config.size_format, Some (SizeFormat::Auto));
}

#[test]
fn env_var_size_bytes_sets_size_format () {
    let config = make_config (Some ("Size=Bytes"));
    assert_eq! (config.size_format, Some (SizeFormat::Bytes));
}

#[test]
fn env_var_size_invalid_records_error () {
    let config = make_config (Some ("Size=Invalid"));
    assert! (config.last_parse_result.has_issues());
}

#[test]
fn env_var_size_case_insensitive () {
    let config = make_config (Some ("Size=auto"));
    assert_eq! (config.size_format, Some (SizeFormat::Auto));

    let config2 = make_config (Some ("Size=BYTES"));
    assert_eq! (config2.size_format, Some (SizeFormat::Bytes));
}

#[test]
fn parse_color_name_all_foreground_colors () {

    let cases: &[(&str, u16)] = &[
        ("Black",        FC_BLACK),
        ("Blue",         FC_BLUE),
        ("Green",        FC_GREEN),
        ("Cyan",         FC_CYAN),
        ("Red",          FC_RED),
        ("Magenta",      FC_MAGENTA),
        ("Brown",        FC_BROWN),
        ("LightGrey",    FC_LIGHT_GREY),
        ("DarkGrey",     FC_DARK_GREY),
        ("LightBlue",    FC_LIGHT_BLUE),
        ("LightGreen",   FC_LIGHT_GREEN),
        ("LightCyan",    FC_LIGHT_CYAN),
        ("LightRed",     FC_LIGHT_RED),
        ("LightMagenta", FC_LIGHT_MAGENTA),
        ("Yellow",       FC_YELLOW),
        ("White",        FC_WHITE),
    ];

    for (name, expected) in cases {
        let result = parse_color_name (name, false);
        assert! (result.is_ok(), "parse_color_name('{}', false) failed", name);
        assert_eq! (result.unwrap(), *expected, "Foreground color '{}' mismatch", name);
    }
}

#[test]
fn parse_color_name_all_background_colors () {

    let cases: &[(&str, u16)] = &[
        ("Black",        BC_BLACK),
        ("Blue",         BC_BLUE),
        ("Green",        BC_GREEN),
        ("Cyan",         BC_CYAN),
        ("Red",          BC_RED),
        ("Magenta",      BC_MAGENTA),
        ("Brown",        BC_BROWN),
        ("LightGrey",    BC_LIGHT_GREY),
        ("DarkGrey",     BC_DARK_GREY),
        ("LightBlue",    BC_LIGHT_BLUE),
        ("LightGreen",   BC_LIGHT_GREEN),
        ("LightCyan",    BC_LIGHT_CYAN),
        ("LightRed",     BC_LIGHT_RED),
        ("LightMagenta", BC_LIGHT_MAGENTA),
        ("Yellow",       BC_YELLOW),
        ("White",        BC_WHITE),
    ];

    for (name, expected) in cases {
        let result = parse_color_name (name, true);
        assert! (result.is_ok(), "parse_color_name('{}', true) failed", name);
        assert_eq! (result.unwrap(), *expected, "Background color '{}' mismatch", name);
    }
}

#[test]
fn parse_color_name_case_insensitive () {

    assert_eq! (parse_color_name ("red",       false).unwrap(), FC_RED);
    assert_eq! (parse_color_name ("RED",       false).unwrap(), FC_RED);
    assert_eq! (parse_color_name ("Red",       false).unwrap(), FC_RED);
    assert_eq! (parse_color_name ("lightblue", false).unwrap(), FC_LIGHT_BLUE);
    assert_eq! (parse_color_name ("LIGHTBLUE", false).unwrap(), FC_LIGHT_BLUE);
}

#[test]
fn parse_color_name_invalid_returns_error () {

    assert! (parse_color_name ("NotAColor", false).is_err());
    assert! (parse_color_name ("", false).is_err());
    assert! (parse_color_name ("123", false).is_err());
}

#[test]
fn parse_color_spec_foreground_only () {

    assert_eq! (parse_color_spec ("Yellow").unwrap(), FC_YELLOW);
    assert_eq! (parse_color_spec ("Red").unwrap(), FC_RED);
    assert_eq! (parse_color_spec (" Yellow ").unwrap(), FC_YELLOW);
}

#[test]
fn parse_color_spec_foreground_and_background () {

    let result = parse_color_spec ("LightCyan on Blue").unwrap();
    assert_eq! (result, FC_LIGHT_CYAN | BC_BLUE);

    let result2 = parse_color_spec ("  LightCyan  on  Blue  ").unwrap();
    assert_eq! (result2, FC_LIGHT_CYAN | BC_BLUE);
}

#[test]
fn parse_color_spec_case_insensitive () {

    assert_eq! (parse_color_spec ("lightcyan on blue").unwrap(), FC_LIGHT_CYAN | BC_BLUE);
    assert_eq! (parse_color_spec ("LIGHTCYAN ON BLUE").unwrap(), FC_LIGHT_CYAN | BC_BLUE);
}

#[test]
fn display_attribute_override_all_valid_chars () {

    // Each display attribute char maps to an Attribute index
    let cases: &[(&str, Attribute)] = &[
        ("D=Yellow",  Attribute::Date),
        ("T=Yellow",  Attribute::Time),
        ("S=Yellow",  Attribute::Size),
        ("R=Yellow",  Attribute::Directory),
        ("A=Yellow",  Attribute::FileAttributePresent),
        ("I=Yellow",  Attribute::Information),
        ("H=Yellow",  Attribute::InformationHighlight),
        ("E=Yellow",  Attribute::Error),
        ("F=Yellow",  Attribute::Default),
        ("O=Yellow",  Attribute::Owner),
        ("M=Yellow",  Attribute::Stream),
        ("C=Yellow",  Attribute::TreeConnector),
    ];

    for (entry, expected_attr) in cases {
        let config = make_config (Some (entry));
        assert_eq! (config.attributes[*expected_attr as usize], FC_YELLOW,
            "Display attribute override for '{}' should set {:?} to Yellow", entry, expected_attr);
    }
}

#[test]
fn display_attribute_override_lowercase_works () {

    let config = make_config (Some ("d=Yellow"));
    assert_eq! (config.attributes[Attribute::Date as usize], FC_YELLOW);
}

#[test]
fn display_attribute_override_with_background () {

    let config = make_config (Some ("D=LightCyan on Blue"));
    assert_eq! (config.attributes[Attribute::Date as usize], FC_LIGHT_CYAN | BC_BLUE);
}

#[test]
fn display_attribute_override_invalid_char_does_nothing () {
    let config = make_config (Some ("Q=Yellow"));
    // Q is not a valid display attribute — should be reported as error
    assert! (!config.last_parse_result.errors.is_empty());
}

#[test]
fn switch_override_w_variants () {
    let cfg_w  = make_config (Some ("W"));
    assert_eq! (cfg_w.wide_listing, Some (true));

    let cfg_wc = make_config (Some ("w"));
    assert_eq! (cfg_wc.wide_listing, Some (true));

    let cfg_wd = make_config (Some ("W-"));
    assert_eq! (cfg_wd.wide_listing, Some (false));
}

#[test]
fn switch_override_s_sets_recurse () {
    let config = make_config (Some ("S"));
    assert_eq! (config.recurse, Some (true));
}

#[test]
fn switch_override_p_sets_perf_timer () {
    let config = make_config (Some ("P"));
    assert_eq! (config.perf_timer, Some (true));
}

#[test]
fn switch_override_m_variants () {
    let cfg_m  = make_config (Some ("M"));
    assert_eq! (cfg_m.multi_threaded, Some (true));

    let cfg_md = make_config (Some ("M-"));
    assert_eq! (cfg_md.multi_threaded, Some (false));
}

#[test]
fn switch_override_icons_variants () {
    let cfg_on  = make_config (Some ("Icons"));
    assert_eq! (cfg_on.icons, Some (true));

    let cfg_off = make_config (Some ("Icons-"));
    assert_eq! (cfg_off.icons, Some (false));
}

#[test]
fn switch_override_invalid_adds_error () {
    let config = make_config (Some ("Bogus"));
    assert! (!config.last_parse_result.errors.is_empty());
}

#[test]
fn switch_override_slash_dash_prefix_rejected () {
    let config_slash = make_config (Some ("/W"));
    assert! (!config_slash.last_parse_result.errors.is_empty());

    let config_dash = make_config (Some ("-W"));
    assert! (!config_dash.last_parse_result.errors.is_empty());
}

#[test]
fn default_switch_values_are_not_set () {
    let config = make_config (None);

    assert! (config.wide_listing.is_none());
    assert! (config.bare_listing.is_none());
    assert! (config.recurse.is_none());
    assert! (config.perf_timer.is_none());
    assert! (config.multi_threaded.is_none());
    assert! (config.show_owner.is_none());
    assert! (config.show_streams.is_none());
    assert! (config.icons.is_none());
    assert! (config.tree.is_none());
}

#[test]
fn file_extension_override_stores_correctly () {

    let config = make_config (Some (".txt=LightGreen"));
    assert_eq! (config.extension_colors.get (".txt"), Some (&FC_LIGHT_GREEN));
}

#[test]
fn file_extension_override_uppercase_converts_to_lowercase () {

    let config = make_config (Some (".TXT=LightGreen"));
    assert_eq! (config.extension_colors.get (".txt"), Some (&FC_LIGHT_GREEN));
}

#[test]
fn file_extension_override_multiple_extensions () {

    let config = make_config (Some (".txt=LightGreen;.log=Yellow;.md=LightCyan"));
    assert_eq! (config.extension_colors.get (".txt"), Some (&FC_LIGHT_GREEN));
    assert_eq! (config.extension_colors.get (".log"), Some (&FC_YELLOW));
    assert_eq! (config.extension_colors.get (".md"),  Some (&FC_LIGHT_CYAN));
}

#[test]
fn file_extension_override_with_background () {

    let config = make_config (Some (".log=Red on Blue"));
    assert_eq! (config.extension_colors.get (".log"), Some (&(FC_RED | BC_BLUE)));
}

#[test]
fn integration_complex_env_string_all_processed () {

    let config = make_config (Some (
        ".py=LightGreen;D=Yellow;W;.rs=LightCyan;Owner"
    ));

    assert_eq! (config.extension_colors.get (".py"), Some (&FC_LIGHT_GREEN));
    assert_eq! (config.extension_colors.get (".rs"), Some (&FC_LIGHT_CYAN));
    assert_eq! (config.attributes[Attribute::Date as usize], FC_YELLOW);
    assert_eq! (config.wide_listing, Some (true));
    assert_eq! (config.show_owner, Some (true));
}

#[test]
fn integration_empty_env_var_no_error () {
    let config = make_config (Some (""));
    assert! (config.last_parse_result.errors.is_empty());
}

#[test]
fn integration_trailing_semicolon_handled () {

    let config = make_config (Some (".py=LightGreen;"));
    assert_eq! (config.extension_colors.get (".py"), Some (&FC_LIGHT_GREEN));
    assert! (config.last_parse_result.errors.is_empty());
}

#[test]
fn integration_multiple_semicolons_parsed () {

    let config = make_config (Some (".py=LightGreen;;.rs=Yellow"));
    assert_eq! (config.extension_colors.get (".py"), Some (&FC_LIGHT_GREEN));
    assert_eq! (config.extension_colors.get (".rs"), Some (&FC_YELLOW));
}

#[test]
fn integration_mixed_attributes_and_extensions () {

    let config = make_config (Some (
        ".cpp=LightCyan;D=Yellow;.h=LightGreen;T=Red;S=White"
    ));

    assert_eq! (config.extension_colors.get (".cpp"), Some (&FC_LIGHT_CYAN));
    assert_eq! (config.extension_colors.get (".h"),   Some (&FC_LIGHT_GREEN));
    assert_eq! (config.attributes[Attribute::Date as usize], FC_YELLOW);
    assert_eq! (config.attributes[Attribute::Time as usize], FC_RED);
    assert_eq! (config.attributes[Attribute::Size as usize], FC_WHITE);
}

#[test]
fn icon_hex_four_digits_parses_correctly () {
    let config = make_config (Some (".cpp=LightCyan,U+E61D"));
    let icon = config.extension_icons.get (".cpp");
    assert! (icon.is_some(), "Extension icon should be set");
    assert_eq! (*icon.unwrap(), '\u{E61D}');
}

#[test]
fn icon_hex_five_digits_parses_correctly () {
    let config = make_config (Some (".cpp=LightCyan,U+1F4C2"));
    let icon = config.extension_icons.get (".cpp");
    assert! (icon.is_some(), "5-digit hex icon should be set");
    assert_eq! (*icon.unwrap(), '\u{1F4C2}');
}

#[test]
fn icon_surrogate_range_rejected () {
    let config_d800 = make_config (Some (".cpp=LightCyan,U+D800"));
    assert! (!config_d800.last_parse_result.errors.is_empty(), "D800 should be rejected");

    let config_dfff = make_config (Some (".cpp=LightCyan,U+DFFF"));
    assert! (!config_dfff.last_parse_result.errors.is_empty(), "DFFF should be rejected");
}

#[test]
fn icon_zero_code_point_rejected () {
    let config = make_config (Some (".cpp=LightCyan,U+0000"));
    assert! (!config.last_parse_result.errors.is_empty());
}

#[test]
fn icon_empty_suppressed () {
    // Trailing comma with nothing after it → icon suppressed
    let config = make_config (Some (".cpp=LightCyan,"));
    let icon = config.extension_icons.get (".cpp");
    // Icon suppressed means icon is '\0'
    if let Some (ch) = icon {
        assert_eq! (*ch, '\0', "Empty icon spec should suppress icon");
    }
}

#[test]
fn icon_literal_bmp_glyph_parses_correctly () {
    // Single char literal
    let config = make_config (Some (".py=LightGreen,\u{E606}"));
    let icon = config.extension_icons.get (".py");
    assert! (icon.is_some());
    assert_eq! (*icon.unwrap(), '\u{E606}');
}

#[test]
fn error_invalid_entry_format_populates () {
    let config = make_config (Some ("NoEqualsSign"));
    assert! (!config.last_parse_result.errors.is_empty());
    let err = &config.last_parse_result.errors[0];
    assert! (!err.entry.is_empty());
}

#[test]
fn error_invalid_foreground_color_populates () {
    let config = make_config (Some (".txt=NotAColor"));
    assert! (!config.last_parse_result.errors.is_empty());
}

#[test]
fn error_invalid_background_populates () {
    let config = make_config (Some (".txt=Red on NotAColor"));
    assert! (!config.last_parse_result.errors.is_empty());
}

#[test]
fn format_number_concurrent_calls_independent () {

    let s1 = format_number_with_separators (1000);
    let s2 = format_number_with_separators (2000);
    let s3 = format_number_with_separators (3000);

    assert_eq! (s1, "1,000");
    assert_eq! (s2, "2,000");
    assert_eq! (s3, "3,000");
}

#[test]
fn config_file_switch_wide_applied() {
    let config = make_config_with_file (&["w"], None);
    assert_eq! (config.wide_listing, Some (true));
}

#[test]
fn config_file_switch_tree_applied() {
    let config = make_config_with_file (&["tree"], None);
    assert_eq! (config.tree, Some (true));
}

#[test]
fn config_file_switch_icons_applied() {
    let config = make_config_with_file (&["icons"], None);
    assert_eq! (config.icons, Some (true));
}

#[test]
fn config_file_switch_disabled() {
    let config = make_config_with_file (&["w-"], None);
    assert_eq! (config.wide_listing, Some (false));
}

#[test]
fn config_file_extension_color_applied() {
    let config = make_config_with_file (&[".cpp = LightGreen"], None);
    assert_eq! (config.extension_colors.get (".cpp"), Some (&FC_LIGHT_GREEN));
    assert_eq! (config.extension_sources.get (".cpp"), Some (&AttributeSource::ConfigFile));
}

#[test]
fn config_file_display_attribute_color_applied() {
    let config = make_config_with_file (&["D = LightCyan"], None);
    assert_eq! (config.attributes[Attribute::Date as usize], FC_LIGHT_CYAN);
    assert_eq! (config.attribute_sources[Attribute::Date as usize], AttributeSource::ConfigFile);
}

#[test]
fn config_file_depth_parameter_applied() {
    let config = make_config_with_file (&["Depth = 3"], None);
    assert_eq! (config.max_depth, Some (3));
    assert_eq! (config.max_depth_source, AttributeSource::ConfigFile);
}

#[test]
fn config_file_size_auto_applied() {
    let config = make_config_with_file (&["Size = Auto"], None);
    assert_eq! (config.size_format, Some (SizeFormat::Auto));
    assert_eq! (config.size_format_source, AttributeSource::ConfigFile);
}

#[test]
fn config_file_comment_lines_skipped() {
    let config = make_config_with_file (&["# This is a comment", ".cpp = Red"], None);
    assert_eq! (config.extension_colors.get (".cpp"), Some (&FC_RED));
    assert! (!config.config_file_parse_result.has_issues());
}

#[test]
fn config_file_inline_comment_stripped() {
    let config = make_config_with_file (&[".cpp = LightGreen # my favorite"], None);
    assert_eq! (config.extension_colors.get (".cpp"), Some (&FC_LIGHT_GREEN));
}

#[test]
fn config_file_blank_lines_skipped() {
    let config = make_config_with_file (&["", "  ", ".cpp = Red", "", ".h = Yellow"], None);
    assert_eq! (config.extension_colors.get (".cpp"), Some (&FC_RED));
    assert_eq! (config.extension_colors.get (".h"), Some (&FC_YELLOW));
}

#[test]
fn config_file_whitespace_trimmed() {
    let config = make_config_with_file (&["   .cpp = Red   "], None);
    assert_eq! (config.extension_colors.get (".cpp"), Some (&FC_RED));
}

#[test]
fn config_file_switch_source_tracked() {
    let config = make_config_with_file (&["w"], None);
    assert_eq! (config.switch_sources[0], AttributeSource::ConfigFile);  // index 0 = wide_listing
}

#[test]
fn env_var_overrides_config_file_color() {
    let config = make_config_with_file (&[".cpp = LightGreen"], Some (".cpp=Yellow"));
    assert_eq! (config.extension_colors.get (".cpp"), Some (&FC_YELLOW));
    assert_eq! (config.extension_sources.get (".cpp"), Some (&AttributeSource::Environment));
}

#[test]
fn env_var_overrides_config_file_switch() {
    let config = make_config_with_file (&["w"], Some ("w-"));
    assert_eq! (config.wide_listing, Some (false));
}

#[test]
fn non_conflicting_settings_merge() {
    let config = make_config_with_file (&[".cpp = LightGreen"], Some (".h=Yellow"));
    assert_eq! (config.extension_colors.get (".cpp"), Some (&FC_LIGHT_GREEN));
    assert_eq! (config.extension_colors.get (".h"), Some (&FC_YELLOW));
    assert_eq! (config.extension_sources.get (".cpp"), Some (&AttributeSource::ConfigFile));
    assert_eq! (config.extension_sources.get (".h"), Some (&AttributeSource::Environment));
}

#[test]
fn config_file_source_preserved_when_no_env_override() {
    let config = make_config_with_file (&["D = LightCyan"], None);
    assert_eq! (config.attribute_sources[Attribute::Date as usize], AttributeSource::ConfigFile);
}

#[test]
fn env_var_source_overwrites_config_file_source() {
    let config = make_config_with_file (&["D = LightCyan"], Some ("D=Yellow"));
    assert_eq! (config.attributes[Attribute::Date as usize], FC_YELLOW);
    assert_eq! (config.attribute_sources[Attribute::Date as usize], AttributeSource::Environment);
}

#[test]
fn config_file_inline_comment_with_hash_in_middle() {
    let config = make_config_with_file (&[".cpp = Red # this is green # not this"], None);
    assert_eq! (config.extension_colors.get (".cpp"), Some (&FC_RED));
}

#[test]
fn config_file_comment_only_line_with_leading_whitespace() {
    let config = make_config_with_file (&["   # comment", ".cpp = Red"], None);
    assert_eq! (config.extension_colors.get (".cpp"), Some (&FC_RED));
    assert! (!config.config_file_parse_result.has_issues());
}

#[test]
fn config_file_whitespace_around_equals() {
    let config = make_config_with_file (&[".cpp   =   LightGreen"], None);
    assert_eq! (config.extension_colors.get (".cpp"), Some (&FC_LIGHT_GREEN));
}

#[test]
fn config_file_tabs_as_whitespace() {
    let config = make_config_with_file (&["\t.cpp = Red\t"], None);
    assert_eq! (config.extension_colors.get (".cpp"), Some (&FC_RED));
}

#[test]
fn config_file_duplicate_last_wins() {
    let config = make_config_with_file (&[".cpp = LightGreen", ".cpp = Yellow"], None);
    assert_eq! (config.extension_colors.get (".cpp"), Some (&FC_YELLOW));
}

#[test]
fn config_file_duplicate_switch_last_wins() {
    let config = make_config_with_file (&["w", "w-"], None);
    assert_eq! (config.wide_listing, Some (false));
}
