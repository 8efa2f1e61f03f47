use wmcssh::contracts::settings::default_terminal_font_family;
use wmcssh::services::settings_service::{
    font_family_needs_write, read_bool, read_string, read_terminal_setting_values, read_u16,
    read_u32, stored_text, terminal_settings_writes, TerminalSettingValues,
    TERMINAL_CURSOR_BLINK_KEY, TERMINAL_FONT_FAMILY_KEY, TERMINAL_FONT_SIZE_KEY,
    TERMINAL_LETTER_SPACING_KEY, TERMINAL_LINE_HEIGHT_KEY, TERMINAL_SCROLLBACK_KEY,
};

fn rows(pairs: &[(&str, &str)]) -> Vec<(String, String)> {
    pairs.iter().map(|(k, v)| (k.to_string(), v.to_string())).collect()
}

#[test]
fn missing_settings_read_as_defaults() {
    let values = rows(&[]);
    let v = read_terminal_setting_values(&values);
    assert_eq!(v, TerminalSettingValues::default());
    assert_eq!(v.font_size, 14);
    assert_eq!(v.font_weight, 400);
    assert_eq!(v.font_weight_bold, 700);
    assert!(v.cursor_blink);
    assert_eq!(v.scrollback, 10000);
}

#[test]
fn unreadable_settings_read_as_defaults() {
    let values = rows(&[
        ("terminal.fontSize", "huge"),
        ("terminal.fontWeight", "70000"),
        ("terminal.cursorBlink", "yes"),
        ("terminal.scrollback", "-5"),
    ]);
    let v = read_terminal_setting_values(&values);
    assert_eq!(v, TerminalSettingValues::default());
}

#[test]
fn stored_settings_are_parsed() {
    let values = rows(&[
        ("terminal.fontSize", "16"),
        ("terminal.fontWeight", "+500"),
        ("terminal.fontWeightBold", "800"),
        ("terminal.cursorBlink", "false"),
        ("terminal.scrollback", "4294967295"),
    ]);
    let v = read_terminal_setting_values(&values);
    assert_eq!(
        v,
        TerminalSettingValues {
            font_size: 16,
            font_weight: 500,
            font_weight_bold: 800,
            cursor_blink: false,
            scrollback: 4294967295,
        }
    );
}

#[test]
fn the_last_row_of_a_key_wins() {
    let values = rows(&[("terminal.fontSize", "12"), ("terminal.fontSize", "18")]);
    assert_eq!(read_u16(&values, TERMINAL_FONT_SIZE_KEY, 14), 18);
    assert_eq!(read_u32(&values, TERMINAL_SCROLLBACK_KEY, 99), 99);
    assert!(read_bool(&values, TERMINAL_CURSOR_BLINK_KEY, true));
}

#[test]
fn string_settings_are_json_decoded_and_trimmed() {
    let values = rows(&[
        ("a", "\"  Fira Code  \""),
        ("b", "  plain text "),
        ("c", "\"   \""),
        ("d", "\"a\\u0041\""),
    ]);
    assert_eq!(read_string(&values, "a"), Some("Fira Code".to_string()));
    assert_eq!(read_string(&values, "b"), Some("plain text".to_string()));
    assert_eq!(read_string(&values, "c"), None);
    assert_eq!(read_string(&values, "d"), Some("aA".to_string()));
    assert_eq!(read_string(&values, "missing"), None);
}

#[test]
fn font_family_is_rewritten_unless_it_is_the_fixed_one() {
    assert!(font_family_needs_write(&rows(&[])));
    assert!(font_family_needs_write(&rows(&[(TERMINAL_FONT_FAMILY_KEY, "monospace")])));
    assert!(!font_family_needs_write(&rows(&[(
        TERMINAL_FONT_FAMILY_KEY,
        default_terminal_font_family()
    )])));
}

#[test]
fn update_writes_every_setting_in_order() {
    let v = TerminalSettingValues {
        font_size: 15,
        font_weight: 300,
        font_weight_bold: 600,
        cursor_blink: false,
        scrollback: 2000,
    };
    let writes = terminal_settings_writes(&v, "1.5", "0.25");
    let keys: Vec<&str> = writes.iter().map(|(k, _)| k.as_str()).collect();
    assert_eq!(
        keys,
        vec![
            "terminal.fontFamily",
            "terminal.fontSize",
            "terminal.fontWeight",
            "terminal.fontWeightBold",
            "terminal.lineHeight",
            "terminal.letterSpacing",
            "terminal.cursorBlink",
            "terminal.scrollback",
        ]
    );
    let values: Vec<&str> = writes.iter().map(|(_, v)| v.as_str()).collect();
    assert_eq!(
        values,
        vec![default_terminal_font_family(), "15", "300", "600", "1.5", "0.25", "false", "2000"]
    );
}

#[test]
fn written_settings_read_back() {
    let v = TerminalSettingValues {
        font_size: 65535,
        font_weight: 0,
        font_weight_bold: 900,
        cursor_blink: false,
        scrollback: 123456,
    };
    let mut values = rows(&[("terminal.fontSize", "9"), ("terminal.cursorBlink", "true")]);
    values.extend(terminal_settings_writes(&v, "1.2", "0"));
    assert_eq!(read_terminal_setting_values(&values), v);
    assert!(!font_family_needs_write(&values));
    assert_eq!(stored_text(&values, TERMINAL_LINE_HEIGHT_KEY), Some("1.2".to_string()));
    assert_eq!(stored_text(&values, TERMINAL_LETTER_SPACING_KEY), Some("0".to_string()));
}

#[test]
fn a_quoted_name_followed_by_more_reads_as_it_is() {
    let values = rows(&[("k", " \"Mono\", serif ")]);
    assert_eq!(read_string(&values, "k"), Some("\"Mono\", serif".to_string()));
    let values = rows(&[("k", "\"Mono\"  ")]);
    assert_eq!(read_string(&values, "k"), Some("Mono".to_string()));
}
