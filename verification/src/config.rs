//! User configuration for wiky.
//!
//! The configuration is stored as TOML in the OS-appropriate place by the
//! program around the library; here it is a plain value with the rules that
//! derive the active theme, the API URL and the output width from it.

use vstd::prelude::*;

use crate::text::{
    chars_of, eq_chars, extend_str,
    lowercase, owned, parse_unsigned, parse_unsigned_exec, string_of, to_lowercase,
};
use crate::theme::{builtin_palette, dark_palette, Theme};

verus! {

/// Top-level user configuration.
#[derive(Debug, Clone)]
pub struct Config {
    /// Wikipedia language code (e.g. `"en"`, `"id"`, `"de"`).
    pub language: String,
    /// Active theme name. Built-in options: `dark`, `light`, `solarized`,
    /// `nord`, `dracula`. Set to `"custom"` to use `[custom_theme]`.
    pub theme: String,
    /// Terminal output width in columns (0 = auto-detect).
    pub width: u16,
    /// Pipe output through a pager.
    pub pager: bool,
    /// Default number of search results to show.
    pub results_count: u8,
    /// When a single result is found, open URL in the browser automatically.
    pub open_urls: bool,
    /// Show images alt-text in output.
    pub show_image_alt: bool,
    /// Maximum article length in bytes (0 = unlimited).
    pub max_article_bytes: usize,
    /// Custom theme (used when `theme = "custom"`).
    pub custom_theme: Theme,
}

/// A configuration as plain values.
pub struct ConfigView {
    pub language: Seq<char>,
    pub theme: Seq<char>,
    pub width: u16,
    pub pager: bool,
    pub results_count: u8,
    pub open_urls: bool,
    pub show_image_alt: bool,
    pub max_article_bytes: usize,
    pub custom_theme: Seq<Seq<char>>,
}

impl View for Config {
    type V = ConfigView;

    open spec fn view(&self) -> ConfigView {
        ConfigView {
            language: self.language@,
            theme: self.theme@,
            width: self.width,
            pager: self.pager,
            results_count: self.results_count,
            open_urls: self.open_urls,
            show_image_alt: self.show_image_alt,
            max_article_bytes: self.max_article_bytes,
            custom_theme: self.custom_theme@,
        }
    }
}

/// The default settings.
pub open spec fn is_default_config(c: Config) -> bool {
    &&& c.language@ == "en"@
    &&& c.theme@ == "dark"@
    &&& c.width == 0
    &&& !c.pager
    &&& c.results_count == 10
    &&& !c.open_urls
    &&& !c.show_image_alt
    &&& c.max_article_bytes == 0
    &&& c.custom_theme@ == dark_palette()
}

/// The palette of the theme that a configuration selects.
pub open spec fn active_palette_of(c: ConfigView) -> Seq<Seq<char>> {
    if c.theme == "custom"@ {
        c.custom_theme
    } else {
        match builtin_palette(lowercase(c.theme)) {
            Some(p) => p,
            None => dark_palette(),
        }
    }
}

/// The palette of the theme that a configuration selects.
pub open spec fn active_palette(c: Config) -> Seq<Seq<char>> {
    active_palette_of(c@)
}

/// The API endpoint for a language code.
pub open spec fn api_url_of(language: Seq<char>) -> Seq<char> {
    api_url_lowered(lowercase(language))
}

/// The API endpoint for an already lower-cased language code.
pub open spec fn api_url_lowered(lowered: Seq<char>) -> Seq<char> {
    "https://"@ + lowered + ".wikipedia.org/w/api.php"@
}

/// The terminal width taken from `$COLUMNS` (if it is a positive `u16`),
/// else from the terminal (if it reports a positive width), else 80.
pub open spec fn terminal_width_of(columns: Option<Seq<char>>, detected: Option<u16>) -> u16 {
    let from_env = match columns {
        Some(s) => match parse_unsigned(s, 10, 65535) {
            Some(n) if n > 0 => Some(n as u16),
            _ => None,
        },
        None => None,
    };
    match from_env {
        Some(n) => n,
        None => match detected {
            Some(w) if w > 0 => w,
            _ => 80,
        },
    }
}

impl Default for Config {
    fn default() -> (c: Config)
        ensures
            is_default_config(c),
    {
        Config {
            language: owned("en"),
            theme: owned("dark"),
            width: 0,
            pager: false,
            results_count: 10,
            open_urls: false,
            show_image_alt: false,
            max_article_bytes: 0,
            custom_theme: Theme::dark(),
        }
    }
}

impl Config {
    /// Resolve and return the active [`Theme`].
    ///
    /// If `self.theme` is exactly `"custom"`, the `custom_theme` field is
    /// copied; if it names a built-in theme (in any case), that theme is
    /// returned; otherwise it falls back to the dark theme.
    pub fn active_theme(&self) -> (t: Theme)
        ensures
            t@ == active_palette(*self),
    {
        let name = chars_of(self.theme.as_str());
        if eq_chars(&name, &chars_of("custom")) {
            return self.custom_theme.duplicate();
        }
        match Theme::by_name(self.theme.as_str()) {
            Some(t) => t,
            None => Theme::dark(),
        }
    }

    /// Return the Wikipedia API base URL for the configured language.
    pub fn api_url(&self) -> (r: String)
        ensures
            r@ == api_url_of(self.language@),
    {
        let lang = to_lowercase(self.language.as_str());
        api_url_for(lang.as_str())
    }

    /// Let the command-line flags override the stored settings: a language,
    /// a theme name and a width where given, and the pager where asked for.
    pub fn apply_overrides(
        &mut self,
        lang: Option<&str>,
        theme: Option<&str>,
        width: Option<u16>,
        pager: bool,
    )
        ensures
            final(self).language@ == match lang {
                Some(l) => l@,
                None => old(self).language@,
            },
            final(self).theme@ == match theme {
                Some(t) => t@,
                None => old(self).theme@,
            },
            final(self).width == match width {
                Some(w) => w,
                None => old(self).width,
            },
            final(self).pager == (old(self).pager || pager),
            final(self).results_count == old(self).results_count,
            final(self).open_urls == old(self).open_urls,
            final(self).show_image_alt == old(self).show_image_alt,
            final(self).max_article_bytes == old(self).max_article_bytes,
            final(self).custom_theme@ == old(self).custom_theme@,
    {
        if let Some(l) = lang {
            self.language = owned(l);
        }
        if let Some(t) = theme {
            self.theme = owned(t);
        }
        if let Some(w) = width {
            self.width = w;
        }
        if pager {
            self.pager = true;
        }
    }

    /// Effective terminal width: `self.width` if > 0, else `detected` (the
    /// width that [`terminal_width_from`] found).
    pub fn effective_width(&self, detected: u16) -> (w: u16)
        ensures
            w == if self.width > 0 { self.width } else { detected },
    {
        if self.width > 0 {
            self.width
        } else {
            detected
        }
    }
}

/// The API endpoint for the lower-cased language code `lowered`.
pub fn api_url_for(lowered: &str) -> (r: String)
    ensures
        r@ == api_url_lowered(lowered@),
{
    let mut v: Vec<char> = Vec::new();
    extend_str(&mut v, "https://");
    extend_str(&mut v, lowered);
    extend_str(&mut v, ".wikipedia.org/w/api.php");
    string_of(&v)
}

/// The terminal width to use, given the value of `$COLUMNS` (if set) and the
/// width the terminal reports (if it reports one), defaulting to 80.
pub fn terminal_width_from(columns: Option<&str>, detected: Option<u16>) -> (w: u16)
    ensures
        w == terminal_width_of(
            match columns {
                Some(s) => Some(s@),
                None => None,
            },
            detected,
        ),
{
    if let Some(cols) = columns {
        let v = chars_of(cols);
        if let Some(n) = parse_unsigned_exec(&v, 10, 65535) {
            if n > 0 {
                return n as u16;
            }
        }
    }
    match detected {
        Some(w) => {
            if w > 0 {
                w
            } else {
                80
            }
        },
        None => 80,
    }
}

} // verus!
