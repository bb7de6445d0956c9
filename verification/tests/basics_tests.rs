use rcdir::environment_provider::EnvironmentProvider;
use std::collections::HashSet;
use rcdir::ansi_codes::CONSOLE_COLOR_TO_ANSI;
use rcdir::ansi_codes::write_sgr;
use rcdir::cloud_status::CIRCLE_FILLED;
use rcdir::cloud_status::CIRCLE_HALF_FILLED;
use rcdir::cloud_status::CIRCLE_HOLLOW;
use rcdir::cloud_status::CloudStatus;
use rcdir::color::BC_BLACK;
use rcdir::color::BC_BLUE;
use rcdir::color::BC_DARK_GREY;
use rcdir::color::BC_GREEN;
use rcdir::color::BC_RED;
use rcdir::color::BC_WHITE;
use rcdir::color::FC_BLACK;
use rcdir::color::FC_BLUE;
use rcdir::color::FC_DARK_GREY;
use rcdir::color::FC_GREEN;
use rcdir::color::FC_LIGHT_CYAN;
use rcdir::color::FC_LIGHT_RED;
use rcdir::color::FC_RED;
use rcdir::color::FC_WHITE;
use rcdir::color::FC_YELLOW;
use rcdir::color::color_name_from_fg;
use rcdir::color::parse_color_name;
use rcdir::color::parse_color_spec;
use rcdir::environment_provider::MockEnvironmentProvider;
use rcdir::file_attribute_map::ATTRIBUTE_PRECEDENCE;
use rcdir::file_info::FILE_ATTRIBUTE_MAP;
use rcdir::listing_totals::ListingTotals;



#[test]
fn sgr_bright_red_on_black() {
    // Bright red fg (0x0C) on black bg (0x00) = WORD 0x000C
    let mut buf = String::new();
    write_sgr(&mut buf, 0x000C);
    assert_eq!(buf, "\x1b[91;40m");
}

#[test]
fn sgr_white_on_blue() {
    // White fg (0x0F) on blue bg (0x10) = WORD 0x001F
    let mut buf = String::new();
    write_sgr(&mut buf, 0x001F);
    // White=0x0F: base 7 (White=37) + bright (+60) = 97
    // Blue bg=0x01: base 1 (Blue=34) + 10 = 44
    assert_eq!(buf, "\x1b[97;44m");
}

#[test]
fn sgr_default_grey_on_black() {
    // LightGrey fg (0x07) on black bg (0x00) = WORD 0x0007
    let mut buf = String::new();
    write_sgr(&mut buf, 0x0007);
    assert_eq!(buf, "\x1b[37;40m");
}

#[test]
fn sgr_yellow_on_dark_red() {
    // Yellow fg (0x0E) on DarkRed bg (0x40) = WORD 0x004E
    let mut buf = String::new();
    write_sgr(&mut buf, 0x004E);
    // Yellow=0x0E: base 6 (Yellow=33) + bright (+60) = 93
    // DarkRed bg=0x04: base 4 (Red=31) + 10 = 41
    assert_eq!(buf, "\x1b[93;41m");
}

#[test]
fn console_color_table_length() {
    assert_eq!(CONSOLE_COLOR_TO_ANSI.len(), 8);
}

#[test]
fn symbol_mapping() {
    assert_eq!(CloudStatus::NotCloud.symbol(), ' ');
    assert_eq!(CloudStatus::CloudOnly.symbol(), CIRCLE_HOLLOW);
    assert_eq!(CloudStatus::Local.symbol(), CIRCLE_HALF_FILLED);
    assert_eq!(CloudStatus::Pinned.symbol(), CIRCLE_FILLED);
}

#[test]
fn parse_foreground_colors() {
    assert_eq!(parse_color_name("Black", false).unwrap(), FC_BLACK);
    assert_eq!(parse_color_name("Yellow", false).unwrap(), FC_YELLOW);
    assert_eq!(parse_color_name("White", false).unwrap(), FC_WHITE);
    assert_eq!(parse_color_name("LightRed", false).unwrap(), FC_LIGHT_RED);
}

#[test]
fn parse_background_colors() {
    assert_eq!(parse_color_name("Black", true).unwrap(), BC_BLACK);
    assert_eq!(parse_color_name("Blue", true).unwrap(), BC_BLUE);
    assert_eq!(parse_color_name("White", true).unwrap(), BC_WHITE);
}

#[test]
fn parse_case_insensitive() {
    assert_eq!(parse_color_name("yellow", false).unwrap(), FC_YELLOW);
    assert_eq!(parse_color_name("YELLOW", false).unwrap(), FC_YELLOW);
    assert_eq!(parse_color_name("lightred", false).unwrap(), FC_LIGHT_RED);
    assert_eq!(parse_color_name("LIGHTRED", false).unwrap(), FC_LIGHT_RED);
}

#[test]
fn parse_invalid_color() {
    assert!(parse_color_name("Purple", false).is_err());
    assert!(parse_color_name("", false).is_err());
}

#[test]
fn parse_spec_foreground_only() {
    assert_eq!(parse_color_spec("Yellow").unwrap(), FC_YELLOW);
    assert_eq!(parse_color_spec("  LightRed  ").unwrap(), FC_LIGHT_RED);
}

#[test]
fn parse_spec_foreground_and_background() {
    assert_eq!(parse_color_spec("LightCyan on Blue").unwrap(), FC_LIGHT_CYAN | BC_BLUE);
    assert_eq!(parse_color_spec("Red on Black").unwrap(), FC_RED | BC_BLACK);
    assert_eq!(parse_color_spec("White on DarkGrey").unwrap(), FC_WHITE | BC_DARK_GREY);
}

#[test]
fn parse_spec_case_insensitive() {
    assert_eq!(parse_color_spec("lightcyan ON blue").unwrap(), FC_LIGHT_CYAN | BC_BLUE);
}

#[test]
fn color_name_roundtrip() {
    assert_eq!(color_name_from_fg(FC_YELLOW), Some("Yellow"));
    assert_eq!(color_name_from_fg(FC_BLACK), Some("Black"));
    assert_eq!(color_name_from_fg(FC_WHITE), Some("White"));
}

#[test]
fn foreground_constants_match_windows() {
    // Verify bit patterns match Windows FOREGROUND_* constants
    assert_eq!(FC_BLUE, 0x01);   // FOREGROUND_BLUE
    assert_eq!(FC_GREEN, 0x02);  // FOREGROUND_GREEN
    assert_eq!(FC_RED, 0x04);    // FOREGROUND_RED
    assert_eq!(FC_DARK_GREY, 0x08); // FOREGROUND_INTENSITY
}

#[test]
fn background_constants_are_shifted() {
    // Background = foreground << 4
    assert_eq!(BC_BLUE, FC_BLUE << 4);
    assert_eq!(BC_GREEN, FC_GREEN << 4);
    assert_eq!(BC_RED, FC_RED << 4);
    assert_eq!(BC_WHITE, FC_WHITE << 4);
}

#[test]
fn mock_provider_returns_set_values() {
    let mut mock = MockEnvironmentProvider::new();
    mock.set("RCDIR", "W;D=Red");
    assert_eq!(mock.get_env_var("RCDIR"), Some("W;D=Red".into()));
}

#[test]
fn mock_provider_returns_none_for_unset() {
    let mock = MockEnvironmentProvider::new();
    assert!(mock.get_env_var("RCDIR").is_none());
}

#[test]
fn test_attribute_precedence_count() {
    assert_eq! (ATTRIBUTE_PRECEDENCE.len(), 9);
}

#[test]
fn test_same_flags_as_display_map() {
    let prec_flags: HashSet<u32> = ATTRIBUTE_PRECEDENCE.iter().map (|&(f, _)| f).collect();
    let disp_flags: HashSet<u32> = FILE_ATTRIBUTE_MAP.iter().map (|&(f, _)| f).collect();
    assert_eq! (prec_flags, disp_flags);
}

#[test]
fn test_no_duplicate_flags() {
    let mut seen = HashSet::new();
    for &(flag, _) in ATTRIBUTE_PRECEDENCE.iter() {
        assert! (seen.insert (flag), "Duplicate flag: 0x{:08X}", flag);
    }
}

#[test]
fn test_no_duplicate_chars() {
    let mut seen = HashSet::new();
    for &(_, ch) in ATTRIBUTE_PRECEDENCE.iter() {
        assert! (seen.insert (ch), "Duplicate char: '{}'", ch);
    }
}

#[test]
fn file_attribute_map_count() {
    assert_eq!(FILE_ATTRIBUTE_MAP.len(), 9);
}

#[test]
fn file_attribute_map_keys_unique() {
    let chars: Vec<char> = FILE_ATTRIBUTE_MAP.iter().map(|&(_, c)| c).collect();
    let mut deduped = chars.clone();
    deduped.sort();
    deduped.dedup();
    assert_eq!(chars.len(), deduped.len());
}

#[test]
fn default_is_zero() {
    let t = ListingTotals::new();
    assert_eq!(t.file_count, 0);
    assert_eq!(t.directory_count, 0);
    assert_eq!(t.file_bytes, 0);
}

#[test]
fn add_accumulates() {
    let mut a = ListingTotals { file_count: 3, directory_count: 1, file_bytes: 1000, stream_count: 0, stream_bytes: 0 };
    let b = ListingTotals { file_count: 5, directory_count: 2, file_bytes: 2000, stream_count: 1, stream_bytes: 100 };
    a.add(&b);
    assert_eq!(a.file_count, 8);
    assert_eq!(a.directory_count, 3);
    assert_eq!(a.file_bytes, 3000);
    assert_eq!(a.stream_count, 1);
    assert_eq!(a.stream_bytes, 100);
}
