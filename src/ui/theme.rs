//! Themes: system, light and dark, in that order of cycling.
use vstd::prelude::*;

use crate::text::{chars_of, is_str};

verus! {

/// Name of the system theme.
pub const THEME_SYSTEM: &'static str = "系统";

/// Name of the light theme.
pub const THEME_LIGHT: &'static str = "亮色";

/// Name of the dark theme.
pub const THEME_DARK: &'static str = "暗色";

/// The application theme.
#[derive(Debug, Clone, Copy, PartialEq, Eq, Structural)]
pub enum AppTheme {
    /// Follow the system setting.
    System,
    /// Light.
    Light,
    /// Dark.
    Dark,
}

/// The display name of each theme.
pub open spec fn theme_name(t: AppTheme) -> Seq<char> {
    match t {
        AppTheme::System => "系统"@,
        AppTheme::Light => "亮色"@,
        AppTheme::Dark => "暗色"@,
    }
}

/// The theme after `t`: system, light, dark, and back to system.
pub open spec fn next_theme(t: AppTheme) -> AppTheme {
    match t {
        AppTheme::System => AppTheme::Light,
        AppTheme::Light => AppTheme::Dark,
        AppTheme::Dark => AppTheme::System,
    }
}

/// The theme with the display name `s`; the system theme for any other text.
pub open spec fn theme_of_name(s: Seq<char>) -> AppTheme {
    if s == "系统"@ {
        AppTheme::System
    } else if s == "亮色"@ {
        AppTheme::Light
    } else if s == "暗色"@ {
        AppTheme::Dark
    } else {
        AppTheme::System
    }
}

impl AppTheme {
    /// The display name.
    pub fn name(&self) -> (r: &'static str)
        ensures
            r@ == theme_name(*self),
    {
        match self {
            AppTheme::System => THEME_SYSTEM,
            AppTheme::Light => THEME_LIGHT,
            AppTheme::Dark => THEME_DARK,
        }
    }

    /// The next theme in the cycle.
    pub fn next(&self) -> (r: Self)
        ensures
            r == next_theme(*self),
    {
        match self {
            AppTheme::System => AppTheme::Light,
            AppTheme::Light => AppTheme::Dark,
            AppTheme::Dark => AppTheme::System,
        }
    }

    /// The theme with the display name `s`; the system theme for any other text.
    pub fn from_str(s: &str) -> (r: Self)
        ensures
            r == theme_of_name(s@),
    {
        let c = chars_of(s);
        if is_str(c.as_slice(), THEME_SYSTEM) {
            AppTheme::System
        } else if is_str(c.as_slice(), THEME_LIGHT) {
            AppTheme::Light
        } else if is_str(c.as_slice(), THEME_DARK) {
            AppTheme::Dark
        } else {
            AppTheme::System
        }
    }

    /// The display name as an owned string.
    pub fn to_string(&self) -> (r: String)
        ensures
            r@ == theme_name(*self),
    {
        String::from_str(self.name())
    }
}

impl Default for AppTheme {
    fn default() -> (r: Self)
        ensures
            r == AppTheme::System,
    {
        AppTheme::System
    }
}

/// Three steps of the cycle lead back to the theme one started from.
pub proof fn lemma_theme_cycle(t: AppTheme)
    ensures
        next_theme(next_theme(next_theme(t))) == t,
        next_theme(t) != t,
{
}

/// Reading back the display name of a theme gives the theme.
pub proof fn lemma_theme_name_round_trip(t: AppTheme)
    ensures
        theme_of_name(theme_name(t)) == t,
{
    reveal_strlit("系统");
    reveal_strlit("亮色");
    reveal_strlit("暗色");
    assert("系统"@[0] != "亮色"@[0]);
    assert("系统"@[0] != "暗色"@[0]);
    assert("亮色"@[0] != "暗色"@[0]);
}

} // verus!
