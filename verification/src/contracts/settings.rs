//! Application settings.
use vstd::prelude::*;

verus! {

/// The font stack the terminal always uses.
pub open spec fn default_terminal_font_family_spec() -> Seq<char> {
    "\"AppTerminalMono\", \"Sarasa Mono SC\", \"Noto Sans Mono CJK SC\", Consolas, monospace"@
}

pub fn default_terminal_font_family() -> (r: &'static str)
    ensures
        r@ == default_terminal_font_family_spec(),
{
    "\"AppTerminalMono\", \"Sarasa Mono SC\", \"Noto Sans Mono CJK SC\", Consolas, monospace"
}

#[derive(Clone, Copy, Debug, PartialEq, Eq, Structural)]
pub enum AppTheme {
    Light,
    Dark,
    System,
}

#[derive(Clone, Copy, Debug, PartialEq, Eq, Structural)]
pub struct SshSettingsDto {
    pub default_connect_timeout_ms: u64,
    pub default_keepalive_interval_secs: u64,
}

} // verus!
