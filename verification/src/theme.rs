//! The theme registry: named token sets, the active theme and the fallback theme.

use vstd::prelude::*;
use crate::table::Table;
use crate::text::{lower, lower_seq, trim, trim_seq, owned, str_eq};

verus! {

pub const THEME_ID_DEFAULT: &'static str = "theme:default";
pub const THEME_ID_LIGHT: &'static str = "theme:light";
pub const THEME_ID_DARK: &'static str = "theme:dark";
pub const THEME_ID_HIGH_CONTRAST: &'static str = "theme:high_contrast";

/// A colour: red, green, blue and alpha.
#[derive(Debug, Clone, Copy, PartialEq, Eq, Structural)]
pub struct Rgba {
    pub r: u8,
    pub g: u8,
    pub b: u8,
    pub a: u8,
}

pub fn rgb(r: u8, g: u8, b: u8) -> (c: Rgba)
    ensures
        c == (Rgba { r, g, b, a: 255 }),
{
    Rgba { r, g, b, a: 255 }
}

/// The base colours and scales of a theme; scales in thousandths.
#[derive(Debug, Clone, Copy, PartialEq, Eq, Structural)]
pub struct ThemeData {
    pub background: Rgba,
    pub accent: Rgba,
    pub font_scale_permille: u32,
    pub stroke_width_permille: u32,
}

/// The colours a theme gives the interface.
#[derive(Debug, Clone, Copy, PartialEq, Eq, Structural)]
pub struct ThemeColors {
    pub command_notice: Rgba,
    pub radial_disabled_text: Rgba,
    pub radial_hub_fill: Rgba,
    pub radial_hub_stroke: Rgba,
    pub radial_hub_text: Rgba,
    pub radial_domain_active_fill: Rgba,
    pub radial_domain_idle_fill: Rgba,
    pub radial_command_active_fill: Rgba,
    pub radial_command_hover_fill: Rgba,
    pub radial_command_disabled_fill: Rgba,
    pub radial_command_text: Rgba,
    pub radial_chrome_text: Rgba,
    pub radial_warning_text: Rgba,
    pub hover_label_background: Rgba,
    pub hover_label_stroke: Rgba,
    pub hover_label_text: Rgba,
}

#[derive(Debug, Clone)]
pub struct ThemeTokenSet {
    pub theme_id: String,
    pub display_name: String,
    pub theme_data: ThemeData,
    pub colors: ThemeColors,
}

#[derive(Debug, Clone, PartialEq, Eq)]
pub struct ThemeCapability {
    pub requested_id: String,
    pub resolved_id: String,
    pub matched: bool,
    pub fallback_used: bool,
    pub display_name: String,
}

#[derive(Debug, Clone)]
pub struct ThemeResolution {
    pub requested_id: String,
    pub resolved_id: String,
    pub matched: bool,
    pub fallback_used: bool,
    pub tokens: ThemeTokenSet,
}

fn copy_tokens(t: &ThemeTokenSet) -> (r: ThemeTokenSet)
    ensures
        r.theme_id@ == t.theme_id@,
        r.display_name@ == t.display_name@,
        r.theme_data == t.theme_data,
        r.colors == t.colors,
{
    ThemeTokenSet {
        theme_id: t.theme_id.clone(),
        display_name: t.display_name.clone(),
        theme_data: t.theme_data,
        colors: t.colors,
    }
}

/// The themes registered, by lower-cased id; the active theme and the fallback.
pub struct ThemeRegistry {
    themes: Table<ThemeTokenSet>,
    active: String,
    fallback_id: String,
}

/// A theme registry's themes as (display name) values.
pub open spec fn theme_names(m: Map<Seq<char>, ThemeTokenSet>) -> Map<Seq<char>, Seq<char>> {
    Map::new(|k: Seq<char>| m.dom().contains(k), |k: Seq<char>| m[k].display_name@)
}

impl ThemeRegistry {
    /// Theme id to display name.
    pub closed spec fn names(&self) -> Map<Seq<char>, Seq<char>> {
        theme_names(self.themes@)
    }

    pub closed spec fn active_id(&self) -> Seq<char> {
        self.active@
    }

    pub closed spec fn fallback(&self) -> Seq<char> {
        self.fallback_id@
    }

    /// Registers a token set that passed validation; refused with the validation's
    /// message otherwise.
    pub fn register_theme(&mut self, tokens: ThemeTokenSet, validation: Result<(), String>) -> (r: Result<(), String>)
        ensures
            match validation {
                Ok(_) => r is Ok && final(self).names() == old(self).names().insert(
                    lower_seq(tokens.theme_id@),
                    tokens.display_name@,
                ),
                Err(e) => r == Err::<(), String>(e) && final(self).names() == old(self).names(),
            },
            final(self).active_id() == old(self).active_id(),
            final(self).fallback() == old(self).fallback(),
    {
        match validation {
            Ok(_) => {
                let key = lower(tokens.theme_id.as_str());
                let mut themes: Table<ThemeTokenSet> = Table::new();
                std::mem::swap(&mut themes, &mut self.themes);
                themes.insert(key, tokens);
                self.themes = themes;
                assert(self.names() =~= old(self).names().insert(lower_seq(tokens.theme_id@), tokens.display_name@));
                Ok(())
            },
            Err(e) => Err(e),
        }
    }

    /// Removes a theme; the fallback theme stays.
    pub fn unregister_theme(&mut self, theme_id: &str) -> (r: bool)
        ensures
            ({
                let id = lower_seq(trim_seq(theme_id@));
                if id == old(self).fallback() {
                    !r && final(self).names() == old(self).names()
                } else {
                    r == old(self).names().dom().contains(id) && final(self).names() == old(self).names().remove(id)
                }
            }),
            final(self).active_id() == old(self).active_id(),
            final(self).fallback() == old(self).fallback(),
    {
        let trimmed = trim(theme_id);
        let normalized = lower(trimmed.as_str());
        if str_eq(normalized.as_str(), self.fallback_id.as_str()) {
            return false;
        }
        let mut themes: Table<ThemeTokenSet> = Table::new();
        std::mem::swap(&mut themes, &mut self.themes);
        let removed = themes.remove(normalized.as_str());
        self.themes = themes;
        assert(self.names() =~= old(self).names().remove(normalized@));
        removed.is_some()
    }

    /// Resolves a theme id (the active theme where none is given): a registered
    /// id matches itself, a blank or unknown one falls back.
    pub fn resolve_theme(&self, theme_id: Option<&str>) -> (r: ThemeResolution)
        ensures
            ({
                let requested = lower_seq(trim_seq(match theme_id { Some(id) => id@, None => self.active_id() }));
                let known = requested.len() > 0 && self.names().dom().contains(requested);
                &&& r.requested_id@ == requested
                &&& r.matched == known
                &&& r.fallback_used == !known
                &&& r.resolved_id@ == (if known { requested } else { self.fallback() })
                &&& r.tokens.display_name@ == (if self.names().dom().contains(r.resolved_id@) {
                    self.names()[r.resolved_id@]
                } else {
                    "Default"@
                })
            }),
    {
        let raw = match theme_id {
            Some(id) => owned(id),
            None => self.active.clone(),
        };
        let trimmed = trim(raw.as_str());
        let requested = lower(trimmed.as_str());
        if requested.unicode_len() > 0 {
            match self.themes.get(requested.as_str()) {
                Some(tokens) => {
                    let resolved_id = requested.clone();
                    return ThemeResolution {
                        requested_id: requested,
                        resolved_id,
                        matched: true,
                        fallback_used: false,
                        tokens: copy_tokens(tokens),
                    };
                },
                None => {},
            }
        }
        let fallback = match self.themes.get(self.fallback_id.as_str()) {
            Some(tokens) => copy_tokens(tokens),
            None => default_theme_tokens(),
        };
        ThemeResolution {
            requested_id: requested,
            resolved_id: self.fallback_id.clone(),
            matched: false,
            fallback_used: true,
            tokens: fallback,
        }
    }

    pub fn describe_theme(&self, theme_id: Option<&str>) -> (r: ThemeCapability)
        ensures
            ({
                let requested = lower_seq(trim_seq(match theme_id { Some(id) => id@, None => self.active_id() }));
                let known = requested.len() > 0 && self.names().dom().contains(requested);
                &&& r.requested_id@ == requested
                &&& r.matched == known
                &&& r.fallback_used == !known
                &&& r.resolved_id@ == (if known { requested } else { self.fallback() })
                &&& r.display_name@ == (if self.names().dom().contains(r.resolved_id@) {
                    self.names()[r.resolved_id@]
                } else {
                    "Default"@
                })
            }),
    {
        let resolution = self.resolve_theme(theme_id);
        ThemeCapability {
            requested_id: resolution.requested_id,
            resolved_id: resolution.resolved_id,
            matched: resolution.matched,
            fallback_used: resolution.fallback_used,
            display_name: resolution.tokens.display_name,
        }
    }

    /// Switches to the theme `theme_id` resolves to.
    pub fn set_active_theme(&mut self, theme_id: &str) -> (r: ThemeResolution)
        ensures
            ({
                let requested = lower_seq(trim_seq(theme_id@));
                let known = requested.len() > 0 && old(self).names().dom().contains(requested);
                &&& r.requested_id@ == requested
                &&& r.matched == known
                &&& r.resolved_id@ == (if known { requested } else { old(self).fallback() })
            }),
            final(self).active_id() == r.resolved_id@,
            final(self).names() == old(self).names(),
            final(self).fallback() == old(self).fallback(),
    {
        let resolution = self.resolve_theme(Some(theme_id));
        self.active = resolution.resolved_id.clone();
        resolution
    }

    pub fn active_theme(&self) -> (r: ThemeResolution)
        ensures
            ({
                let requested = lower_seq(trim_seq(self.active_id()));
                let known = requested.len() > 0 && self.names().dom().contains(requested);
                &&& r.matched == known
                &&& r.resolved_id@ == (if known { requested } else { self.fallback() })
            }),
    {
        self.resolve_theme(None)
    }
}

pub fn default_theme_tokens() -> (r: ThemeTokenSet)
    ensures
        r.theme_id@ == THEME_ID_DEFAULT@,
        r.display_name@ == "Default"@,
        r.theme_data == (ThemeData {
            background: opaque(20, 20, 25),
            accent: opaque(80, 220, 255),
            font_scale_permille: 1000,
            stroke_width_permille: 1000,
        }),
        r.colors == default_colors_spec(),
{
    ThemeTokenSet {
        theme_id: owned(THEME_ID_DEFAULT),
        display_name: owned("Default"),
        theme_data: ThemeData {
            background: rgb(20, 20, 25),
            accent: rgb(80, 220, 255),
            font_scale_permille: 1000,
            stroke_width_permille: 1000,
        },
        colors: default_colors(),
    }
}

/// An opaque colour.
pub open spec fn opaque(r: u8, g: u8, b: u8) -> Rgba {
    Rgba { r, g, b, a: 255 }
}

/// The interface colours of the default theme.
pub open spec fn default_colors_spec() -> ThemeColors {
    ThemeColors {
        command_notice: opaque(234, 200, 145),
        radial_disabled_text: opaque(165, 172, 178),
        radial_hub_fill: opaque(28, 32, 36),
        radial_hub_stroke: opaque(90, 110, 125),
        radial_hub_text: opaque(210, 230, 245),
        radial_domain_active_fill: opaque(70, 130, 170),
        radial_domain_idle_fill: opaque(50, 66, 80),
        radial_command_active_fill: opaque(80, 170, 215),
        radial_command_hover_fill: opaque(64, 82, 98),
        radial_command_disabled_fill: opaque(42, 48, 54),
        radial_command_text: opaque(230, 240, 248),
        radial_chrome_text: opaque(170, 190, 205),
        radial_warning_text: opaque(234, 200, 145),
        hover_label_background: Rgba { r: 22, g: 28, b: 34, a: 235 },
        hover_label_stroke: opaque(88, 110, 126),
        hover_label_text: opaque(220, 236, 248),
    }
}

fn default_colors() -> (r: ThemeColors)
    ensures
        r == default_colors_spec(),
{
    ThemeColors {
        command_notice: rgb(234, 200, 145),
        radial_disabled_text: rgb(165, 172, 178),
        radial_hub_fill: rgb(28, 32, 36),
        radial_hub_stroke: rgb(90, 110, 125),
        radial_hub_text: rgb(210, 230, 245),
        radial_domain_active_fill: rgb(70, 130, 170),
        radial_domain_idle_fill: rgb(50, 66, 80),
        radial_command_active_fill: rgb(80, 170, 215),
        radial_command_hover_fill: rgb(64, 82, 98),
        radial_command_disabled_fill: rgb(42, 48, 54),
        radial_command_text: rgb(230, 240, 248),
        radial_chrome_text: rgb(170, 190, 205),
        radial_warning_text: rgb(234, 200, 145),
        hover_label_background: Rgba { r: 22, g: 28, b: 34, a: 235 },
        hover_label_stroke: rgb(88, 110, 126),
        hover_label_text: rgb(220, 236, 248),
    }
}

pub fn light_theme_tokens() -> (r: ThemeTokenSet)
    ensures
        r.theme_id@ == THEME_ID_LIGHT@,
        r.display_name@ == "Light"@,
        r.theme_data == (ThemeData {
            background: opaque(20, 20, 25),
            accent: opaque(80, 220, 255),
            font_scale_permille: 1000,
            stroke_width_permille: 1000,
        }),
        r.colors == default_colors_spec(),
{
    ThemeTokenSet {
        theme_id: owned(THEME_ID_LIGHT),
        display_name: owned("Light"),
        theme_data: ThemeData {
            background: rgb(20, 20, 25),
            accent: rgb(80, 220, 255),
            font_scale_permille: 1000,
            stroke_width_permille: 1000,
        },
        colors: default_colors(),
    }
}

pub fn dark_theme_tokens() -> (r: ThemeTokenSet)
    ensures
        r.theme_id@ == THEME_ID_DARK@,
        r.display_name@ == "Dark"@,
{
    ThemeTokenSet {
        theme_id: owned(THEME_ID_DARK),
        display_name: owned("Dark"),
        theme_data: ThemeData {
            background: rgb(14, 14, 18),
            accent: rgb(110, 170, 255),
            font_scale_permille: 1000,
            stroke_width_permille: 1000,
        },
        colors: ThemeColors {
            command_notice: rgb(240, 214, 164),
            radial_disabled_text: rgb(176, 182, 190),
            radial_hub_fill: rgb(20, 24, 30),
            radial_hub_stroke: rgb(92, 116, 138),
            radial_hub_text: rgb(220, 234, 250),
            radial_domain_active_fill: rgb(86, 140, 186),
            radial_domain_idle_fill: rgb(44, 56, 72),
            radial_command_active_fill: rgb(94, 166, 224),
            radial_command_hover_fill: rgb(58, 74, 92),
            radial_command_disabled_fill: rgb(34, 40, 48),
            radial_command_text: rgb(232, 240, 248),
            radial_chrome_text: rgb(184, 198, 214),
            radial_warning_text: rgb(240, 214, 164),
            hover_label_background: Rgba { r: 16, g: 20, b: 28, a: 240 },
            hover_label_stroke: rgb(86, 110, 136),
            hover_label_text: rgb(226, 236, 248),
        },
    }
}

pub fn high_contrast_theme_tokens() -> (r: ThemeTokenSet)
    ensures
        r.theme_id@ == THEME_ID_HIGH_CONTRAST@,
        r.display_name@ == "High Contrast"@,
{
    ThemeTokenSet {
        theme_id: owned(THEME_ID_HIGH_CONTRAST),
        display_name: owned("High Contrast"),
        theme_data: ThemeData {
            background: rgb(0, 0, 0),
            accent: rgb(255, 230, 0),
            font_scale_permille: 1100,
            stroke_width_permille: 1500,
        },
        colors: ThemeColors {
            command_notice: rgb(255, 230, 0),
            radial_disabled_text: rgb(255, 255, 255),
            radial_hub_fill: rgb(0, 0, 0),
            radial_hub_stroke: rgb(255, 255, 255),
            radial_hub_text: rgb(255, 255, 255),
            radial_domain_active_fill: rgb(255, 230, 0),
            radial_domain_idle_fill: rgb(0, 0, 0),
            radial_command_active_fill: rgb(255, 230, 0),
            radial_command_hover_fill: rgb(40, 40, 40),
            radial_command_disabled_fill: rgb(0, 0, 0),
            radial_command_text: rgb(255, 255, 255),
            radial_chrome_text: rgb(255, 255, 255),
            radial_warning_text: rgb(255, 230, 0),
            hover_label_background: Rgba { r: 0, g: 0, b: 0, a: 255 },
            hover_label_stroke: rgb(255, 255, 255),
            hover_label_text: rgb(255, 255, 255),
        },
    }
}

/// The themes registered from the start.
pub open spec fn builtin_theme_names() -> Map<Seq<char>, Seq<char>> {
    map![
        lower_seq(THEME_ID_DEFAULT@) => "Default"@,
        lower_seq(THEME_ID_LIGHT@) => "Light"@,
        lower_seq(THEME_ID_DARK@) => "Dark"@,
        lower_seq(THEME_ID_HIGH_CONTRAST@) => "High Contrast"@,
    ]
}

impl Default for ThemeRegistry {
    fn default() -> (r: Self)
        ensures
            r.names() == builtin_theme_names(),
            r.active_id() == THEME_ID_DEFAULT@,
            r.fallback() == THEME_ID_DEFAULT@,
    {
        proof {
            reveal_strlit("theme:default");
        }
        let mut themes: Table<ThemeTokenSet> = Table::new();
        let d = default_theme_tokens();
        themes.insert(lower(d.theme_id.as_str()), d);
        assert(lower_seq(THEME_ID_DEFAULT@) =~= THEME_ID_DEFAULT@);
        let mut r = ThemeRegistry { themes, active: owned(THEME_ID_DEFAULT), fallback_id: owned(THEME_ID_DEFAULT) };
        assert(r.names() =~= map![lower_seq(THEME_ID_DEFAULT@) => "Default"@]);
        r.register_theme(light_theme_tokens(), Ok(()));
        r.register_theme(dark_theme_tokens(), Ok(()));
        r.register_theme(high_contrast_theme_tokens(), Ok(()));
        r
    }
}

} // verus!
