use saddle_stitcher::autostart::{quote_for_command_line, quote_for_desktop_entry};

#[test]
fn quote_for_desktop_entry_escapes_reserved_chars() {
    assert_eq!(quote_for_desktop_entry("/usr/bin/app"), "\"/usr/bin/app\"");
    assert_eq!(
        quote_for_desktop_entry(r#"/path/with "quote"/app"#),
        r#""/path/with \\"quote\\"/app""#
    );
    assert_eq!(
        quote_for_desktop_entry(r"C:\weird\path"),
        r#""C:\\\\weird\\\\path""#
    );
    assert_eq!(quote_for_desktop_entry("100% done"), "\"100%% done\"");
    assert_eq!(
        quote_for_desktop_entry("$HOME/`cmd`"),
        r#""\\$HOME/\\`cmd\\`""#
    );
}

#[test]
fn quote_for_desktop_entry_of_empty_path() {
    assert_eq!(quote_for_desktop_entry(""), "\"\"");
}

#[test]
fn command_line_quoting_wraps_in_double_quotes() {
    assert_eq!(
        quote_for_command_line(r"C:\Program Files\saddle-stitcher\saddle-stitcher.exe"),
        r#""C:\Program Files\saddle-stitcher\saddle-stitcher.exe""#
    );
}
