//! Application themes: the catalogue of themes, their names and
//! descriptions, parsing a theme from its configuration key, and the steps
//! and colour settings that applying a theme consists of.

use vstd::prelude::*;

use crate::text::{all_ascii, ascii_lower, chars_of, lowercase, string_of, to_lowercase};

verus! {

/// The themes the application offers.
#[derive(Clone, Copy, Debug, PartialEq, Eq, Structural)]
pub enum AppTheme {
    Default,
    Dark,
    Light,
    AquaClassic,
    HighContrast,
    Fleet,
    Sweet,
}

/// An RGB colour.
#[derive(Clone, Copy, Debug, PartialEq, Eq, Structural)]
pub struct Rgb {
    pub r: u8,
    pub g: u8,
    pub b: u8,
}

/// The fixed palette of the default look.
pub struct DefaultTheme;

impl DefaultTheme {
    /// The `background` colour of the palette.
    pub fn background() -> (c: Rgb)
        ensures
            c == (Rgb { r: 248, g: 249, b: 250 }),
    {
        Rgb { r: 248, g: 249, b: 250 }
    }

    /// The `primary` colour of the palette.
    pub fn primary() -> (c: Rgb)
        ensures
            c == (Rgb { r: 0, g: 123, b: 255 }),
    {
        Rgb { r: 0, g: 123, b: 255 }
    }

    /// The `success` colour of the palette.
    pub fn success() -> (c: Rgb)
        ensures
            c == (Rgb { r: 40, g: 167, b: 69 }),
    {
        Rgb { r: 40, g: 167, b: 69 }
    }

    /// The `danger` colour of the palette.
    pub fn danger() -> (c: Rgb)
        ensures
            c == (Rgb { r: 220, g: 53, b: 69 }),
    {
        Rgb { r: 220, g: 53, b: 69 }
    }

    /// The `warning` colour of the palette.
    pub fn warning() -> (c: Rgb)
        ensures
            c == (Rgb { r: 255, g: 193, b: 7 }),
    {
        Rgb { r: 255, g: 193, b: 7 }
    }

    /// The `info` colour of the palette.
    pub fn info() -> (c: Rgb)
        ensures
            c == (Rgb { r: 23, g: 162, b: 184 }),
    {
        Rgb { r: 23, g: 162, b: 184 }
    }

    /// The `text` colour of the palette.
    pub fn text() -> (c: Rgb)
        ensures
            c == (Rgb { r: 33, g: 37, b: 41 }),
    {
        Rgb { r: 33, g: 37, b: 41 }
    }

    /// The `muted` colour of the palette.
    pub fn muted() -> (c: Rgb)
        ensures
            c == (Rgb { r: 108, g: 117, b: 125 }),
    {
        Rgb { r: 108, g: 117, b: 125 }
    }

    /// The `white` colour of the palette.
    pub fn white() -> (c: Rgb)
        ensures
            c == (Rgb { r: 255, g: 255, b: 255 }),
    {
        Rgb { r: 255, g: 255, b: 255 }
    }

    /// The `border` colour of the palette.
    pub fn border() -> (c: Rgb)
        ensures
            c == (Rgb { r: 222, g: 226, b: 230 }),
    {
        Rgb { r: 222, g: 226, b: 230 }
    }
}

/// A colour theme of the widget toolkit's theme collection.
#[derive(Clone, Copy, Debug, PartialEq, Eq, Structural)]
pub enum ColorThemeId {
    Dark,
    Tan,
    Black,
}

/// A widget scheme of the widget toolkit's theme collection.
#[derive(Clone, Copy, Debug, PartialEq, Eq, Structural)]
pub enum SchemeId {
    Fluent,
    Clean,
    Fleet1,
    Sweet,
}

/// One step of applying a theme, performed in order by the front end.
#[derive(Clone, Copy, Debug, PartialEq, Eq, Structural)]
pub enum ThemeStep {
    /// Switch the toolkit to its built-in GTK scheme.
    GtkScheme,
    /// Apply a colour theme.
    Colors(ColorThemeId),
    /// Apply a widget scheme.
    Scheme(SchemeId),
    /// Apply the Aqua Classic widget theme.
    AquaClassicWidgets,
}

/// A slot of the toolkit's colour map.
#[derive(Clone, Copy, Debug, PartialEq, Eq, Structural)]
pub enum ColorSlot {
    Background,
    Background2,
    Foreground,
    Selection,
}

/// Setting one colour slot.
#[derive(Clone, Copy, Debug, PartialEq, Eq, Structural)]
pub struct ColorSetting {
    pub slot: ColorSlot,
    pub color: Rgb,
}

/// The steps that applying `t` consists of.
pub open spec fn theme_steps(t: AppTheme) -> Seq<ThemeStep> {
    match t {
        AppTheme::Default => seq![ThemeStep::GtkScheme],
        AppTheme::Dark => seq![ThemeStep::Colors(ColorThemeId::Dark), ThemeStep::Scheme(SchemeId::Fluent)],
        AppTheme::Light => seq![ThemeStep::Colors(ColorThemeId::Tan), ThemeStep::Scheme(SchemeId::Clean)],
        AppTheme::AquaClassic => seq![ThemeStep::AquaClassicWidgets],
        AppTheme::HighContrast => seq![
            ThemeStep::Colors(ColorThemeId::Black),
            ThemeStep::Scheme(SchemeId::Clean),
        ],
        AppTheme::Fleet => seq![ThemeStep::Scheme(SchemeId::Fleet1), ThemeStep::Colors(ColorThemeId::Dark)],
        AppTheme::Sweet => seq![ThemeStep::Scheme(SchemeId::Sweet), ThemeStep::Colors(ColorThemeId::Tan)],
    }
}

/// The colour settings that suit file management under `t`.
pub open spec fn file_manager_colors_spec(t: AppTheme) -> Seq<ColorSetting> {
    match t {
        AppTheme::Dark => seq![
            ColorSetting { slot: ColorSlot::Background, color: Rgb { r: 30, g: 30, b: 30 } },
            ColorSetting { slot: ColorSlot::Background2, color: Rgb { r: 40, g: 40, b: 40 } },
            ColorSetting { slot: ColorSlot::Foreground, color: Rgb { r: 220, g: 220, b: 220 } },
        ],
        AppTheme::Light => seq![
            ColorSetting { slot: ColorSlot::Background, color: Rgb { r: 248, g: 249, b: 250 } },
            ColorSetting { slot: ColorSlot::Background2, color: Rgb { r: 255, g: 255, b: 255 } },
            ColorSetting { slot: ColorSlot::Foreground, color: Rgb { r: 33, g: 37, b: 41 } },
        ],
        AppTheme::AquaClassic => seq![
            ColorSetting { slot: ColorSlot::Background, color: Rgb { r: 236, g: 236, b: 236 } },
            ColorSetting { slot: ColorSlot::Selection, color: Rgb { r: 56, g: 117, b: 215 } },
        ],
        _ => Seq::empty(),
    }
}

/// Every theme, in the order the application lists them.
pub open spec fn all_themes() -> Seq<AppTheme> {
    seq![
        AppTheme::Default,
        AppTheme::Dark,
        AppTheme::Light,
        AppTheme::AquaClassic,
        AppTheme::HighContrast,
        AppTheme::Fleet,
        AppTheme::Sweet,
    ]
}

/// The display name of a theme.
pub open spec fn theme_name_spec(t: AppTheme) -> Seq<char> {
    match t {
        AppTheme::Default => "Default"@,
        AppTheme::Dark => "Dark"@,
        AppTheme::Light => "Light"@,
        AppTheme::AquaClassic => "Aqua Classic"@,
        AppTheme::HighContrast => "High Contrast"@,
        AppTheme::Fleet => "Fleet"@,
        AppTheme::Sweet => "Sweet"@,
    }
}

/// The one-line description of a theme.
pub open spec fn theme_description_spec(t: AppTheme) -> Seq<char> {
    match t {
        AppTheme::Default => "Standard FLTK theme with GTK styling"@,
        AppTheme::Dark => "Dark color scheme with modern fluent design"@,
        AppTheme::Light => "Light color scheme with clean appearance"@,
        AppTheme::AquaClassic => "macOS Aqua-style interface"@,
        AppTheme::HighContrast => "High contrast for better accessibility"@,
        AppTheme::Fleet => "Professional gradient-based theme"@,
        AppTheme::Sweet => "GNOME/KDE inspired theme"@,
    }
}

/// The theme that a (lower-case) configuration key selects.
pub open spec fn theme_for_key(k: Seq<char>) -> Option<AppTheme> {
    if k == "default"@ {
        Some(AppTheme::Default)
    } else if k == "dark"@ {
        Some(AppTheme::Dark)
    } else if k == "light"@ {
        Some(AppTheme::Light)
    } else if k == "aqua"@ || k == "aqua_classic"@ {
        Some(AppTheme::AquaClassic)
    } else if k == "high_contrast"@ || k == "contrast"@ {
        Some(AppTheme::HighContrast)
    } else if k == "fleet"@ {
        Some(AppTheme::Fleet)
    } else if k == "sweet"@ {
        Some(AppTheme::Sweet)
    } else {
        None
    }
}

/// The canonical configuration key of a theme.
pub open spec fn theme_key(t: AppTheme) -> Seq<char> {
    match t {
        AppTheme::Default => "default"@,
        AppTheme::Dark => "dark"@,
        AppTheme::Light => "light"@,
        AppTheme::AquaClassic => "aqua_classic"@,
        AppTheme::HighContrast => "high_contrast"@,
        AppTheme::Fleet => "fleet"@,
        AppTheme::Sweet => "sweet"@,
    }
}

/// Whether two character vectors are equal.
fn chars_eq(a: &Vec<char>, b: &str) -> (r: bool)
    ensures
        r == (a@ == b@),
{
    let bs = chars_of(b);
    if a.len() != bs.len() {
        return false;
    }
    let mut i: usize = 0;
    while i < a.len()
        invariant
            i <= a.len(),
            a.len() == bs.len(),
            bs@ == b@,
            forall|k: int| 0 <= k < i ==> a@[k] == bs@[k],
        decreases a.len() - i,
    {
        if a[i] != bs[i] {
            assert(a@[i as int] != bs@[i as int]);
            return false;
        }
        i += 1;
    }
    assert(a@ =~= bs@);
    true
}

/// The theme that a lower-case configuration key selects, if any.
pub fn theme_from_key(key: &str) -> (r: Option<AppTheme>)
    ensures
        r == theme_for_key(key@),
{
    let k = chars_of(key);
    if chars_eq(&k, "default") {
        Some(AppTheme::Default)
    } else if chars_eq(&k, "dark") {
        Some(AppTheme::Dark)
    } else if chars_eq(&k, "light") {
        Some(AppTheme::Light)
    } else if chars_eq(&k, "aqua") || chars_eq(&k, "aqua_classic") {
        Some(AppTheme::AquaClassic)
    } else if chars_eq(&k, "high_contrast") || chars_eq(&k, "contrast") {
        Some(AppTheme::HighContrast)
    } else if chars_eq(&k, "fleet") {
        Some(AppTheme::Fleet)
    } else if chars_eq(&k, "sweet") {
        Some(AppTheme::Sweet)
    } else {
        None
    }
}

/// Keeps track of the theme in use.
pub struct ThemeManager {
    current_theme: AppTheme,
}

impl ThemeManager {
    /// The theme in use.
    pub closed spec fn current(&self) -> AppTheme {
        self.current_theme
    }

    /// A manager whose theme is the default one.
    pub fn new() -> (r: Self)
        ensures
            r.current() == AppTheme::Default,
    {
        ThemeManager { current_theme: AppTheme::Default }
    }

    /// Switches to `theme` and returns the steps that the front end performs
    /// to show it, in order (after which it redraws every window).
    pub fn apply_theme(&mut self, theme: AppTheme) -> (steps: Vec<ThemeStep>)
        ensures
            final(self).current() == theme,
            steps@ == theme_steps(theme),
    {
        let steps = match theme {
            AppTheme::Default => vec![ThemeStep::GtkScheme],
            AppTheme::Dark => vec![
                ThemeStep::Colors(ColorThemeId::Dark),
                ThemeStep::Scheme(SchemeId::Fluent),
            ],
            AppTheme::Light => vec![
                ThemeStep::Colors(ColorThemeId::Tan),
                ThemeStep::Scheme(SchemeId::Clean),
            ],
            AppTheme::AquaClassic => vec![ThemeStep::AquaClassicWidgets],
            AppTheme::HighContrast => vec![
                ThemeStep::Colors(ColorThemeId::Black),
                ThemeStep::Scheme(SchemeId::Clean),
            ],
            AppTheme::Fleet => vec![
                ThemeStep::Scheme(SchemeId::Fleet1),
                ThemeStep::Colors(ColorThemeId::Dark),
            ],
            AppTheme::Sweet => vec![
                ThemeStep::Scheme(SchemeId::Sweet),
                ThemeStep::Colors(ColorThemeId::Tan),
            ],
        };
        self.current_theme = theme;
        assert(steps@ =~= theme_steps(theme));
        steps
    }

    /// The theme in use.
    pub fn get_current_theme(&self) -> (r: &AppTheme)
        ensures
            *r == self.current(),
    {
        &self.current_theme
    }

    /// Every theme the application offers.
    pub fn get_available_themes() -> (r: Vec<AppTheme>)
        ensures
            r@ == all_themes(),
    {
        let r = vec![
            AppTheme::Default,
            AppTheme::Dark,
            AppTheme::Light,
            AppTheme::AquaClassic,
            AppTheme::HighContrast,
            AppTheme::Fleet,
            AppTheme::Sweet,
        ];
        assert(r@ =~= all_themes());
        r
    }

    /// The display name of a theme.
    pub fn theme_name(theme: &AppTheme) -> (r: &'static str)
        ensures
            r@ == theme_name_spec(*theme),
    {
        match theme {
            AppTheme::Default => "Default",
            AppTheme::Dark => "Dark",
            AppTheme::Light => "Light",
            AppTheme::AquaClassic => "Aqua Classic",
            AppTheme::HighContrast => "High Contrast",
            AppTheme::Fleet => "Fleet",
            AppTheme::Sweet => "Sweet",
        }
    }

    /// The one-line description of a theme.
    pub fn theme_description(theme: &AppTheme) -> (r: &'static str)
        ensures
            r@ == theme_description_spec(*theme),
    {
        match theme {
            AppTheme::Default => "Standard FLTK theme with GTK styling",
            AppTheme::Dark => "Dark color scheme with modern fluent design",
            AppTheme::Light => "Light color scheme with clean appearance",
            AppTheme::AquaClassic => "macOS Aqua-style interface",
            AppTheme::HighContrast => "High contrast for better accessibility",
            AppTheme::Fleet => "Professional gradient-based theme",
            AppTheme::Sweet => "GNOME/KDE inspired theme",
        }
    }

    /// The theme a configuration value names, compared in lower case:
    /// `default`, `dark`, `light`, `aqua` or `aqua_classic`,
    /// `high_contrast` or `contrast`, `fleet`, `sweet`.
    pub fn parse_theme(theme_str: &str) -> (r: Option<AppTheme>)
        ensures
            r == theme_for_key(lowercase(theme_str@)),
            all_ascii(theme_str@) ==> r == theme_for_key(ascii_lower(theme_str@)),
    {
        let lower = to_lowercase(theme_str);
        theme_from_key(lower.as_str())
    }

    /// The colour settings that adapt the theme in use to file management.
    pub fn apply_file_manager_styling(&self) -> (r: Vec<ColorSetting>)
        ensures
            r@ == file_manager_colors_spec(self.current()),
    {
        let r = match self.current_theme {
            AppTheme::Dark => vec![
                ColorSetting { slot: ColorSlot::Background, color: Rgb { r: 30, g: 30, b: 30 } },
                ColorSetting { slot: ColorSlot::Background2, color: Rgb { r: 40, g: 40, b: 40 } },
                ColorSetting {
                    slot: ColorSlot::Foreground,
                    color: Rgb { r: 220, g: 220, b: 220 },
                },
            ],
            AppTheme::Light => vec![
                ColorSetting {
                    slot: ColorSlot::Background,
                    color: Rgb { r: 248, g: 249, b: 250 },
                },
                ColorSetting {
                    slot: ColorSlot::Background2,
                    color: Rgb { r: 255, g: 255, b: 255 },
                },
                ColorSetting { slot: ColorSlot::Foreground, color: Rgb { r: 33, g: 37, b: 41 } },
            ],
            AppTheme::AquaClassic => vec![
                ColorSetting {
                    slot: ColorSlot::Background,
                    color: Rgb { r: 236, g: 236, b: 236 },
                },
                ColorSetting { slot: ColorSlot::Selection, color: Rgb { r: 56, g: 117, b: 215 } },
            ],
            _ => Vec::new(),
        };
        assert(r@ =~= file_manager_colors_spec(self.current()));
        r
    }
}

impl Default for ThemeManager {
    fn default() -> (r: Self)
        ensures
            r.current() == AppTheme::Default,
    {
        Self::new()
    }
}

/// The canonical key of every theme selects that theme again, and the
/// catalogue lists every theme exactly once.
pub proof fn lemma_theme_keys_roundtrip(t: AppTheme)
    ensures
        theme_for_key(theme_key(t)) == Some(t),
        all_themes().contains(t),
        all_themes().no_duplicates(),
{
    reveal_strlit("default");
    reveal_strlit("dark");
    reveal_strlit("light");
    reveal_strlit("aqua");
    reveal_strlit("aqua_classic");
    reveal_strlit("high_contrast");
    reveal_strlit("contrast");
    reveal_strlit("fleet");
    reveal_strlit("sweet");
    assert("default"@.len() == 7 && "default"@[0] == 'd');
    assert("dark"@.len() == 4 && "dark"@[0] == 'd');
    assert("light"@.len() == 5 && "light"@[0] == 'l');
    assert("aqua"@.len() == 4 && "aqua"@[0] == 'a');
    assert("aqua_classic"@.len() == 12 && "aqua_classic"@[0] == 'a');
    assert("high_contrast"@.len() == 13 && "high_contrast"@[0] == 'h');
    assert("contrast"@.len() == 8 && "contrast"@[0] == 'c');
    assert("fleet"@.len() == 5 && "fleet"@[0] == 'f');
    assert("sweet"@.len() == 5 && "sweet"@[0] == 's');
    let a = all_themes();
    assert forall|i: int, j: int| 0 <= i < a.len() && 0 <= j < a.len() && i != j implies a[i]
        != a[j] by {
        assert(a[0] == AppTheme::Default);
        assert(a[1] == AppTheme::Dark);
        assert(a[2] == AppTheme::Light);
        assert(a[3] == AppTheme::AquaClassic);
        assert(a[4] == AppTheme::HighContrast);
        assert(a[5] == AppTheme::Fleet);
        assert(a[6] == AppTheme::Sweet);
    }
    match t {
        AppTheme::Default => {
            assert(theme_key(t) == "default"@);
            assert(theme_for_key("default"@) == Some(AppTheme::Default));
            assert(a[0] == t);
        },
        AppTheme::Dark => {
            assert(theme_for_key("dark"@) == Some(AppTheme::Dark));
            assert(a[1] == t);
        },
        AppTheme::Light => {
            assert(theme_for_key("light"@) == Some(AppTheme::Light));
            assert(a[2] == t);
        },
        AppTheme::AquaClassic => {
            assert(theme_for_key("aqua_classic"@) == Some(AppTheme::AquaClassic));
            assert(a[3] == t);
        },
        AppTheme::HighContrast => {
            assert(theme_for_key("high_contrast"@) == Some(AppTheme::HighContrast));
            assert(a[4] == t);
        },
        AppTheme::Fleet => {
            assert(theme_for_key("fleet"@) == Some(AppTheme::Fleet));
            assert(a[5] == t);
        },
        AppTheme::Sweet => {
            assert(theme_for_key("sweet"@) == Some(AppTheme::Sweet));
            assert(a[6] == t);
        },
    }
}

} // verus!

verus! {

/// Parsing a theme's display name gives the theme back, except for Aqua
/// Classic and High Contrast, whose names hold a space and are not
/// accepted keys: display names are ASCII, and their lower case selects
/// the theme or nothing.
pub proof fn lemma_parse_theme_name(t: AppTheme)
    ensures
        all_ascii(theme_name_spec(t)),
        theme_for_key(ascii_lower(theme_name_spec(t))) == (match t {
            AppTheme::AquaClassic => None,
            AppTheme::HighContrast => None,
            _ => Some(t),
        }),
{
    reveal_strlit("Default");
    reveal_strlit("Dark");
    reveal_strlit("Light");
    reveal_strlit("Aqua Classic");
    reveal_strlit("High Contrast");
    reveal_strlit("Fleet");
    reveal_strlit("Sweet");
    reveal_strlit("default");
    reveal_strlit("dark");
    reveal_strlit("light");
    reveal_strlit("aqua");
    reveal_strlit("aqua_classic");
    reveal_strlit("high_contrast");
    reveal_strlit("contrast");
    reveal_strlit("fleet");
    reveal_strlit("sweet");
    let n = theme_name_spec(t);
    let l = ascii_lower(n);
    match t {
        AppTheme::Default => {
            assert(l =~= "default"@);
            assert(theme_for_key(l) == Some(AppTheme::Default));
        },
        AppTheme::Dark => {
            assert(l =~= "dark"@);
            assert(theme_for_key(l) == Some(AppTheme::Dark));
        },
        AppTheme::Light => {
            assert(l =~= "light"@);
            assert(theme_for_key(l) == Some(AppTheme::Light));
        },
        AppTheme::Fleet => {
            assert(l =~= "fleet"@);
            assert("light"@[0] == 'l' && l[0] == 'f');
            assert(theme_for_key(l) == Some(AppTheme::Fleet));
        },
        AppTheme::Sweet => {
            assert(l =~= "sweet"@);
            assert("light"@[0] == 'l' && "fleet"@[0] == 'f' && l[0] == 's');
            assert(theme_for_key(l) == Some(AppTheme::Sweet));
        },
        AppTheme::AquaClassic => {
            assert(l.len() == 12 && l[4] == ' ');
            assert(l != "aqua_classic"@ && l != "aqua"@);
            assert(theme_for_key(l) == None::<AppTheme>);
        },
        AppTheme::HighContrast => {
            assert(l.len() == 13 && l[4] == ' ');
            assert(l != "high_contrast"@ && l != "contrast"@);
            assert(theme_for_key(l) == None::<AppTheme>);
        },
    }
}

} // verus!
