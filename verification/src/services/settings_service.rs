//! Terminal settings kept as key/value text rows: how stored texts are read
//! back, with defaults for what is missing or unreadable, and which rows an
//! update writes.
use vstd::prelude::*;
use vstd::string::StringExecFns;
use crate::contracts::settings::{default_terminal_font_family, default_terminal_font_family_spec};
use crate::json::{is_plain_json_text, json_string_value, parse_json_string, plain_literal_then_more};
use crate::pairs::{lemma_pairs_map_last, lookup_value, pairs_lookup, Pairs};
use crate::text::{
    bool_text, bool_text_seq, decimal, decimal_seq, lemma_parse_bool_text, lemma_parse_decimal,
    is_white_space, parse_bool, parse_bool_seq, parse_unsigned, parse_unsigned_seq, str_eq, trim, trim_seq,
};

verus! {

pub const TERMINAL_FONT_FAMILY_KEY: &'static str = "terminal.fontFamily";
pub const TERMINAL_FONT_SIZE_KEY: &'static str = "terminal.fontSize";
pub const TERMINAL_FONT_WEIGHT_KEY: &'static str = "terminal.fontWeight";
pub const TERMINAL_FONT_WEIGHT_BOLD_KEY: &'static str = "terminal.fontWeightBold";
pub const TERMINAL_LINE_HEIGHT_KEY: &'static str = "terminal.lineHeight";
pub const TERMINAL_LETTER_SPACING_KEY: &'static str = "terminal.letterSpacing";
pub const TERMINAL_CURSOR_BLINK_KEY: &'static str = "terminal.cursorBlink";
pub const TERMINAL_SCROLLBACK_KEY: &'static str = "terminal.scrollback";

pub const DEFAULT_FONT_SIZE: u16 = 14;
pub const DEFAULT_FONT_WEIGHT: u16 = 400;
pub const DEFAULT_FONT_WEIGHT_BOLD: u16 = 700;
pub const DEFAULT_CURSOR_BLINK: bool = true;
pub const DEFAULT_SCROLLBACK: u32 = 10000;

/// A stored text as a setting: the string it encodes as a JSON string
/// literal, or the text itself where it is not one.
pub open spec fn decoded_setting_text(raw: Seq<char>) -> Seq<char> {
    match json_string_value(raw) {
        Some(s) => s,
        None => raw,
    }
}

/// A text setting: the decoded stored text, trimmed, where that leaves
/// something.
pub open spec fn stored_string(es: Pairs, key: Seq<char>) -> Option<Seq<char>> {
    match pairs_lookup(es, key) {
        Some(raw) => {
            let t = trim_seq(decoded_setting_text(raw));
            if t.len() == 0 {
                None
            } else {
                Some(t)
            }
        },
        None => None,
    }
}

/// A whole-number setting no larger than `max`: the stored text parsed, or
/// `default` where it is missing or does not parse.
pub open spec fn stored_unsigned(es: Pairs, key: Seq<char>, max: nat, default: nat) -> nat {
    match pairs_lookup(es, key) {
        Some(raw) => match parse_unsigned_seq(raw, max) {
            Some(n) => n,
            None => default,
        },
        None => default,
    }
}

/// A flag setting: the stored `true` or `false`, else `default`.
pub open spec fn stored_bool(es: Pairs, key: Seq<char>, default: bool) -> bool {
    match pairs_lookup(es, key) {
        Some(raw) => match parse_bool_seq(raw) {
            Some(b) => b,
            None => default,
        },
        None => default,
    }
}

/// A text setting read from the stored rows.
pub fn read_string(values: &Vec<(String, String)>, key: &str) -> (r: Option<String>)
    ensures
        match stored_string(values.deep_view(), key@) {
            Some(t) => r matches Some(s) && s@ == t,
            None => r is None,
        },
        match pairs_lookup(values.deep_view(), key@) {
            Some(raw) => (exists|k: int| plain_literal_then_more(raw, k)) ==> (if trim_seq(raw).len() == 0 {
                r is None
            } else {
                r matches Some(s) && s@ == trim_seq(raw)
            }),
            None => true,
        },
{
    match lookup_value(values, key) {
        Some(raw) => {
            let decoded = match parse_json_string(raw.as_str()) {
                Ok(text) => text,
                Err(_) => raw.clone(),
            };
            let trimmed = trim(decoded.as_str());
            if trimmed.unicode_len() == 0 {
                None
            } else {
                Some(String::from_str(trimmed))
            }
        },
        None => None,
    }
}

/// A `u16` setting read from the stored rows.
pub fn read_u16(values: &Vec<(String, String)>, key: &str, default: u16) -> (r: u16)
    ensures
        r as nat == stored_unsigned(values.deep_view(), key@, 0xffff, default as nat),
{
    match lookup_value(values, key) {
        Some(raw) => match parse_unsigned(raw.as_str(), 0xffff) {
            Some(n) => n as u16,
            None => default,
        },
        None => default,
    }
}

/// A `u32` setting read from the stored rows.
pub fn read_u32(values: &Vec<(String, String)>, key: &str, default: u32) -> (r: u32)
    ensures
        r as nat == stored_unsigned(values.deep_view(), key@, 0xffff_ffff, default as nat),
{
    match lookup_value(values, key) {
        Some(raw) => match parse_unsigned(raw.as_str(), 0xffff_ffff) {
            Some(n) => n as u32,
            None => default,
        },
        None => default,
    }
}

/// A flag setting read from the stored rows.
pub fn read_bool(values: &Vec<(String, String)>, key: &str, default: bool) -> (r: bool)
    ensures
        r == stored_bool(values.deep_view(), key@, default),
{
    match lookup_value(values, key) {
        Some(raw) => match parse_bool(raw.as_str()) {
            Some(b) => b,
            None => default,
        },
        None => default,
    }
}

/// The stored text of a setting, untouched (for settings that are parsed as
/// floating-point numbers by the caller).
pub fn stored_text(values: &Vec<(String, String)>, key: &str) -> (r: Option<String>)
    ensures
        match pairs_lookup(values.deep_view(), key@) {
            Some(v) => r matches Some(s) && s@ == v,
            None => r is None,
        },
{
    match lookup_value(values, key) {
        Some(raw) => Some(raw.clone()),
        None => None,
    }
}

/// Whether the stored font family differs from the fixed one, so that the
/// fixed one has to be written.
pub fn font_family_needs_write(values: &Vec<(String, String)>) -> (r: bool)
    ensures
        r == (stored_string(values.deep_view(), TERMINAL_FONT_FAMILY_KEY@) != Some(
            default_terminal_font_family_spec(),
        )),
        pairs_lookup(values.deep_view(), TERMINAL_FONT_FAMILY_KEY@) == Some(default_terminal_font_family_spec())
            ==> !r,
{
    proof {
        lemma_fixed_font_family_reads_back();
    }
    match read_string(values, TERMINAL_FONT_FAMILY_KEY) {
        Some(stored) => !str_eq(stored.as_str(), default_terminal_font_family()),
        None => true,
    }
}


/// The fixed font stack, stored as it is, reads back as itself: it begins
/// with a quoted name followed by a comma, so it is not one JSON string, and
/// it has no surrounding white space.
proof fn lemma_fixed_font_family_reads_back()
    ensures
        plain_literal_then_more(default_terminal_font_family_spec(), 16),
        trim_seq(default_terminal_font_family_spec()) == default_terminal_font_family_spec(),
{
    reveal_strlit("\"AppTerminalMono\", \"Sarasa Mono SC\", \"Noto Sans Mono CJK SC\", Consolas, monospace");
    let f = default_terminal_font_family_spec();
    assert(f[0] == '"' && f[16] == '"' && f[17] == ',');
    assert(is_plain_json_text(f.subrange(1, 16)));
    assert(!is_white_space(f[0]));
    assert(!is_white_space(f.last()));
}

/// The terminal settings that are whole numbers or flags.
#[derive(Clone, Copy, Debug, PartialEq, Eq, Structural)]
pub struct TerminalSettingValues {
    pub font_size: u16,
    pub font_weight: u16,
    pub font_weight_bold: u16,
    pub cursor_blink: bool,
    pub scrollback: u32,
}

pub open spec fn default_setting_values() -> TerminalSettingValues {
    TerminalSettingValues {
        font_size: DEFAULT_FONT_SIZE,
        font_weight: DEFAULT_FONT_WEIGHT,
        font_weight_bold: DEFAULT_FONT_WEIGHT_BOLD,
        cursor_blink: DEFAULT_CURSOR_BLINK,
        scrollback: DEFAULT_SCROLLBACK,
    }
}

impl Default for TerminalSettingValues {
    fn default() -> (r: Self)
        ensures
            r == default_setting_values(),
    {
        TerminalSettingValues {
            font_size: DEFAULT_FONT_SIZE,
            font_weight: DEFAULT_FONT_WEIGHT,
            font_weight_bold: DEFAULT_FONT_WEIGHT_BOLD,
            cursor_blink: DEFAULT_CURSOR_BLINK,
            scrollback: DEFAULT_SCROLLBACK,
        }
    }
}

/// What the stored rows give for each of these settings.
pub open spec fn setting_values_from(es: Pairs) -> TerminalSettingValues {
    TerminalSettingValues {
        font_size: stored_unsigned(es, TERMINAL_FONT_SIZE_KEY@, 0xffff, DEFAULT_FONT_SIZE as nat) as u16,
        font_weight: stored_unsigned(es, TERMINAL_FONT_WEIGHT_KEY@, 0xffff, DEFAULT_FONT_WEIGHT as nat) as u16,
        font_weight_bold: stored_unsigned(
            es,
            TERMINAL_FONT_WEIGHT_BOLD_KEY@,
            0xffff,
            DEFAULT_FONT_WEIGHT_BOLD as nat,
        ) as u16,
        cursor_blink: stored_bool(es, TERMINAL_CURSOR_BLINK_KEY@, DEFAULT_CURSOR_BLINK),
        scrollback: stored_unsigned(es, TERMINAL_SCROLLBACK_KEY@, 0xffff_ffff, DEFAULT_SCROLLBACK as nat) as u32,
    }
}

/// The whole-number and flag settings read from the stored rows.
pub fn read_terminal_setting_values(values: &Vec<(String, String)>) -> (r: TerminalSettingValues)
    ensures
        r == setting_values_from(values.deep_view()),
{
    TerminalSettingValues {
        font_size: read_u16(values, TERMINAL_FONT_SIZE_KEY, DEFAULT_FONT_SIZE),
        font_weight: read_u16(values, TERMINAL_FONT_WEIGHT_KEY, DEFAULT_FONT_WEIGHT),
        font_weight_bold: read_u16(values, TERMINAL_FONT_WEIGHT_BOLD_KEY, DEFAULT_FONT_WEIGHT_BOLD),
        cursor_blink: read_bool(values, TERMINAL_CURSOR_BLINK_KEY, DEFAULT_CURSOR_BLINK),
        scrollback: read_u32(values, TERMINAL_SCROLLBACK_KEY, DEFAULT_SCROLLBACK),
    }
}

/// The rows an update writes, in order: the fixed font family, then each
/// setting as text; the two floating-point settings come as the caller
/// wrote them.
pub open spec fn settings_writes_spec(v: TerminalSettingValues, line_height: Seq<char>, letter_spacing: Seq<char>) -> Pairs {
    seq![
        (TERMINAL_FONT_FAMILY_KEY@, default_terminal_font_family_spec()),
        (TERMINAL_FONT_SIZE_KEY@, decimal_seq(v.font_size as nat)),
        (TERMINAL_FONT_WEIGHT_KEY@, decimal_seq(v.font_weight as nat)),
        (TERMINAL_FONT_WEIGHT_BOLD_KEY@, decimal_seq(v.font_weight_bold as nat)),
        (TERMINAL_LINE_HEIGHT_KEY@, line_height),
        (TERMINAL_LETTER_SPACING_KEY@, letter_spacing),
        (TERMINAL_CURSOR_BLINK_KEY@, bool_text_seq(v.cursor_blink)),
        (TERMINAL_SCROLLBACK_KEY@, decimal_seq(v.scrollback as nat)),
    ]
}

/// The rows that an update of the terminal settings writes.
pub fn terminal_settings_writes(
    v: &TerminalSettingValues,
    line_height: &str,
    letter_spacing: &str,
) -> (r: Vec<(String, String)>)
    ensures
        r.deep_view() == settings_writes_spec(*v, line_height@, letter_spacing@),
{
    let mut out: Vec<(String, String)> = Vec::new();
    out.push((String::from_str(TERMINAL_FONT_FAMILY_KEY), String::from_str(default_terminal_font_family())));
    out.push((String::from_str(TERMINAL_FONT_SIZE_KEY), decimal(v.font_size as u64)));
    out.push((String::from_str(TERMINAL_FONT_WEIGHT_KEY), decimal(v.font_weight as u64)));
    out.push((String::from_str(TERMINAL_FONT_WEIGHT_BOLD_KEY), decimal(v.font_weight_bold as u64)));
    out.push((String::from_str(TERMINAL_LINE_HEIGHT_KEY), String::from_str(line_height)));
    out.push((String::from_str(TERMINAL_LETTER_SPACING_KEY), String::from_str(letter_spacing)));
    out.push((String::from_str(TERMINAL_CURSOR_BLINK_KEY), String::from_str(bool_text(v.cursor_blink))));
    out.push((String::from_str(TERMINAL_SCROLLBACK_KEY), decimal(v.scrollback as u64)));
    assert(out.deep_view() =~= settings_writes_spec(*v, line_height@, letter_spacing@));
    out
}


/// The setting keys, told apart.
proof fn lemma_setting_keys_distinct()
    ensures
        TERMINAL_FONT_SIZE_KEY@ != TERMINAL_FONT_WEIGHT_KEY@,
        TERMINAL_FONT_SIZE_KEY@ != TERMINAL_FONT_WEIGHT_BOLD_KEY@,
        TERMINAL_FONT_SIZE_KEY@ != TERMINAL_LINE_HEIGHT_KEY@,
        TERMINAL_FONT_SIZE_KEY@ != TERMINAL_LETTER_SPACING_KEY@,
        TERMINAL_FONT_SIZE_KEY@ != TERMINAL_CURSOR_BLINK_KEY@,
        TERMINAL_FONT_SIZE_KEY@ != TERMINAL_SCROLLBACK_KEY@,
        TERMINAL_FONT_WEIGHT_KEY@ != TERMINAL_FONT_WEIGHT_BOLD_KEY@,
        TERMINAL_FONT_WEIGHT_KEY@ != TERMINAL_LINE_HEIGHT_KEY@,
        TERMINAL_FONT_WEIGHT_KEY@ != TERMINAL_LETTER_SPACING_KEY@,
        TERMINAL_FONT_WEIGHT_KEY@ != TERMINAL_CURSOR_BLINK_KEY@,
        TERMINAL_FONT_WEIGHT_KEY@ != TERMINAL_SCROLLBACK_KEY@,
        TERMINAL_FONT_WEIGHT_BOLD_KEY@ != TERMINAL_LINE_HEIGHT_KEY@,
        TERMINAL_FONT_WEIGHT_BOLD_KEY@ != TERMINAL_LETTER_SPACING_KEY@,
        TERMINAL_FONT_WEIGHT_BOLD_KEY@ != TERMINAL_CURSOR_BLINK_KEY@,
        TERMINAL_FONT_WEIGHT_BOLD_KEY@ != TERMINAL_SCROLLBACK_KEY@,
        TERMINAL_CURSOR_BLINK_KEY@ != TERMINAL_SCROLLBACK_KEY@,
        TERMINAL_FONT_FAMILY_KEY@ != TERMINAL_FONT_SIZE_KEY@,
        TERMINAL_FONT_FAMILY_KEY@ != TERMINAL_FONT_WEIGHT_KEY@,
        TERMINAL_FONT_FAMILY_KEY@ != TERMINAL_FONT_WEIGHT_BOLD_KEY@,
        TERMINAL_FONT_FAMILY_KEY@ != TERMINAL_LINE_HEIGHT_KEY@,
        TERMINAL_FONT_FAMILY_KEY@ != TERMINAL_LETTER_SPACING_KEY@,
        TERMINAL_FONT_FAMILY_KEY@ != TERMINAL_CURSOR_BLINK_KEY@,
        TERMINAL_FONT_FAMILY_KEY@ != TERMINAL_SCROLLBACK_KEY@,
{
    reveal_strlit("terminal.fontFamily");
    reveal_strlit("terminal.fontSize");
    reveal_strlit("terminal.fontWeight");
    reveal_strlit("terminal.fontWeightBold");
    reveal_strlit("terminal.lineHeight");
    reveal_strlit("terminal.letterSpacing");
    reveal_strlit("terminal.cursorBlink");
    reveal_strlit("terminal.scrollback");
    let size = TERMINAL_FONT_SIZE_KEY@;
    let weight = TERMINAL_FONT_WEIGHT_KEY@;
    let bold = TERMINAL_FONT_WEIGHT_BOLD_KEY@;
    let line = TERMINAL_LINE_HEIGHT_KEY@;
    let spacing = TERMINAL_LETTER_SPACING_KEY@;
    let blink = TERMINAL_CURSOR_BLINK_KEY@;
    let scroll = TERMINAL_SCROLLBACK_KEY@;
    let family = TERMINAL_FONT_FAMILY_KEY@;
    assert(family.len() == 19);
    assert(family[13] != weight[13]);
    assert(family[9] != line[9]);
    assert(family[9] != scroll[9]);
    assert(size.len() == 17 && weight.len() == 19 && bold.len() == 23 && line.len() == 19);
    assert(spacing.len() == 22 && blink.len() == 20 && scroll.len() == 19);
    assert(weight[9] != line[9]);
    assert(weight[9] != scroll[9]);
}

/// Settings written by an update are what a later read gives back: once
/// the update's rows are stored after any earlier rows, the whole-number and
/// flag settings read from them are exactly those written, and the font
/// family is the fixed one as it is (which `font_family_needs_write` leaves
/// alone).
pub proof fn law_written_settings_read_back(
    stored: Pairs,
    v: TerminalSettingValues,
    line_height: Seq<char>,
    letter_spacing: Seq<char>,
)
    ensures
        setting_values_from(stored + settings_writes_spec(v, line_height, letter_spacing)) == v,
        pairs_lookup(stored + settings_writes_spec(v, line_height, letter_spacing), TERMINAL_FONT_FAMILY_KEY@)
            == Some(default_terminal_font_family_spec()),
{
    let w = settings_writes_spec(v, line_height, letter_spacing);
    let es = stored + w;
    let n = stored.len() as int;
    lemma_setting_keys_distinct();
    assert forall|j: int| 0 <= j < 8 implies #[trigger] es[n + j] == w[j] by {}
    lemma_pairs_map_last(es, n);
    lemma_pairs_map_last(es, n + 1);
    lemma_pairs_map_last(es, n + 2);
    lemma_pairs_map_last(es, n + 3);
    lemma_pairs_map_last(es, n + 6);
    lemma_pairs_map_last(es, n + 7);
    lemma_parse_decimal(v.font_size as nat, 0xffff);
    lemma_parse_decimal(v.font_weight as nat, 0xffff);
    lemma_parse_decimal(v.font_weight_bold as nat, 0xffff);
    lemma_parse_decimal(v.scrollback as nat, 0xffff_ffff);
    lemma_parse_bool_text(v.cursor_blink);
}

} // verus!
