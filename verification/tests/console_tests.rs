use std::sync::Arc;
use rcdir::environment_provider::MockEnvironmentProvider;
use rcdir::config::Config;
use rcdir::console::Console;

fn make_test_console() -> Console {
    let mut cfg = Config::new();
    cfg.initialize_with_provider(0x07, &MockEnvironmentProvider::new());
    Console::new(Arc::new(cfg), 120)
}

fn strip_ansi(s: &str) -> String {
    let mut result = String::with_capacity(s.len());
    let mut chars = s.chars().peekable();
    while let Some(ch) = chars.next() {
        if ch == '\x1b' {
            if chars.peek() == Some(&'[') {
                chars.next();
                while let Some(&c) = chars.peek() {
                    chars.next();
                    if c == 'm' {
                        break;
                    }
                }
            }
        } else {
            result.push(ch);
        }
    }
    result
}


#[test]
fn color_puts_no_markers_outputs_entire_string() {
    let mut con = make_test_console();
    con.color_puts ("Hello, World!");
    let buf = con.take_output();
    let plain = strip_ansi (&buf);
    assert! (plain.contains ("Hello, World!"));
    assert! (plain.ends_with ('\n'));
}

#[test]
fn color_puts_single_marker_switches_color() {
    let mut con = make_test_console();
    con.color_puts ("Normal {InformationHighlight}Highlighted");
    let buf = con.take_output();
    let plain = strip_ansi (&buf);
    assert! (plain.contains ("Normal "));
    assert! (plain.contains ("Highlighted"));
    // The marker itself must not appear in output
    assert! (!plain.contains ("{InformationHighlight}"));
}

#[test]
fn color_puts_multiple_markers_switches_correctly() {
    let mut con = make_test_console();
    con.color_puts ("{InformationHighlight}-A{Information}  Displays files");
    let buf = con.take_output();
    let plain = strip_ansi (&buf);
    assert! (plain.contains ("-A"));
    assert! (plain.contains ("Displays files"));
    assert! (!plain.contains ("{InformationHighlight}"));
    assert! (!plain.contains ("{Information}"));
}

#[test]
fn color_puts_all_attributes_parses_correctly() {
    let mut con = make_test_console();
    con.color_puts (
        "{Default}D\
         {Date}Dt\
         {Time}Tm\
         {FileAttributePresent}Fa\
         {FileAttributeNotPresent}Fn\
         {Size}Sz\
         {Directory}Dr\
         {Information}In\
         {InformationHighlight}Hl\
         {SeparatorLine}Sl\
         {Error}Er\
         {Owner}Ow\
         {Stream}St\
         {CloudStatusCloudOnly}C1\
         {CloudStatusLocallyAvailable}C2\
         {CloudStatusAlwaysLocallyAvailable}C3"
    );
    let buf = con.take_output();
    let plain = strip_ansi (&buf);
    assert! (plain.contains ("DDtTmFaFnSzDrInHlSlErOwStC1C2C3"));
}

#[test]
fn color_puts_cloud_status_markers() {
    let mut con = make_test_console();
    con.color_puts (
        "Cloud: {CloudStatusCloudOnly}\u{25CB}{Information} \
         {CloudStatusLocallyAvailable}\u{25D0}{Information} \
         {CloudStatusAlwaysLocallyAvailable}\u{25CF}{Information}"
    );
    let buf = con.take_output();
    let plain = strip_ansi (&buf);
    assert! (plain.contains ("\u{25CB}"));
    assert! (plain.contains ("\u{25D0}"));
    assert! (plain.contains ("\u{25CF}"));
}

#[test]
fn color_puts_marker_at_start() {
    let mut con = make_test_console();
    con.color_puts ("{InformationHighlight}Highlighted text");
    let buf = con.take_output();
    let plain = strip_ansi (&buf);
    assert! (plain.contains ("Highlighted text"));
    assert! (!plain.contains ("{InformationHighlight}"));
}

#[test]
fn color_puts_marker_at_end() {
    let mut con = make_test_console();
    con.color_puts ("Text then marker{Default}");
    let buf = con.take_output();
    let plain = strip_ansi (&buf);
    assert! (plain.contains ("Text then marker"));
    assert! (!plain.contains ("{Default}"));
}

#[test]
fn color_puts_consecutive_markers() {
    let mut con = make_test_console();
    con.color_puts ("{Information}{InformationHighlight}Text");
    let buf = con.take_output();
    let plain = strip_ansi (&buf);
    assert! (plain.contains ("Text"));
    assert! (!plain.contains ("{Information}"));
    assert! (!plain.contains ("{InformationHighlight}"));
}

#[test]
fn color_puts_empty_string_no_output() {
    let mut con = make_test_console();
    con.color_puts ("");
    let buf = con.take_output();
    let plain = strip_ansi (&buf);
    // Only a newline from color_puts
    assert_eq! (plain.trim(), "");
}

#[test]
fn color_puts_only_markers_no_visible_output() {
    let mut con = make_test_console();
    con.color_puts ("{Information}{InformationHighlight}{Default}");
    let buf = con.take_output();
    let plain = strip_ansi (&buf);
    assert_eq! (plain.trim(), "");
}

#[test]
fn color_puts_multiline_with_markers() {
    let mut con = make_test_console();
    con.color_puts (
        "Line 1 {InformationHighlight}highlighted\nLine 2 {Information}normal"
    );
    let buf = con.take_output();
    let plain = strip_ansi (&buf);
    assert! (plain.contains ("Line 1 "));
    assert! (plain.contains ("highlighted"));
    assert! (plain.contains ("Line 2 "));
    assert! (plain.contains ("normal"));
}

#[test]
fn color_printf_formats_and_processes_markers() {
    let mut con = make_test_console();
    con.color_printf (&format! ("{{InformationHighlight}}{}{{Information}} = {}", "Value", 42));
    let buf = con.take_output();
    let plain = strip_ansi (&buf);
    assert! (plain.contains ("Value"));
    assert! (plain.contains ("= 42"));
}

#[test]
fn color_printf_no_markers_formats_correctly() {
    let mut con = make_test_console();
    con.color_printf (&format! ("Simple format: {}", 123));
    let buf = con.take_output();
    let plain = strip_ansi (&buf);
    assert! (plain.contains ("Simple format: 123"));
}

#[test]
fn color_puts_unclosed_brace_emits_literal() {
    let mut con = make_test_console();
    con.color_puts ("Text with {Information unclosed");
    let buf = con.take_output();
    let plain = strip_ansi (&buf);
    // Unclosed brace: the remaining text is emitted as literal
    assert! (plain.contains ("Text with "));
}

#[test]
fn color_puts_unknown_marker_emits_literal() {
    let mut con = make_test_console();
    con.color_puts ("Text with {UnknownMarker} here");
    let buf = con.take_output();
    let plain = strip_ansi (&buf);
    assert! (plain.contains ("Text with "));
    assert! (plain.contains ("{UnknownMarker}"));
    assert! (plain.contains ("here"));
}

#[test]
fn color_puts_valid_marker_does_not_panic() {
    let mut con = make_test_console();
    con.color_puts ("Text with {InformationHighlight}valid{Information} marker");
    let buf = con.take_output();
    let plain = strip_ansi (&buf);
    assert! (plain.contains ("Text with "));
    assert! (plain.contains ("valid"));
    assert! (plain.contains (" marker"));
}

#[test]
fn color_printf_switch_style_usage() {
    let mut con = make_test_console();
    con.color_puts (
        "  {InformationHighlight}-A{Information}          Displays files with specified attributes."
    );
    let buf = con.take_output();
    let plain = strip_ansi (&buf);
    assert! (plain.contains ("-A"));
    assert! (plain.contains ("Displays files with specified attributes."));
}

#[test]
fn process_multiline_string_resets_color_at_newlines() {
    let mut con = make_test_console();
    // Use a non-default color (bright red = 0x0C)
    con.printf(0x0C, "line1\nline2");
    let buf = con.take_output();

    // Should contain at least two color sequences (one for bright red, one for reset/default)
    let sgr_count = buf.matches ("\x1b[").count();
    assert! (sgr_count >= 3, "Expected at least 3 SGR sequences (color, reset at newline, restore), got {}", sgr_count);
    let plain = strip_ansi (&buf);
    assert_eq! (plain, "line1\nline2");
}
