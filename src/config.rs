//! The persisted presentation settings, their documented defaults, and how a
//! partly filled stored record is completed.

use vstd::prelude::*;

verus! {

/// Palette entry names for the three colored roles.
pub struct Colors {
    pub label: String,
    pub value: String,
    pub logo: String,
}

/// Presentation settings, loaded once at startup.
pub struct Config {
    pub font: String,
    pub font_size: u8,
    pub spacing: u8,
    pub info_order: Vec<String>,
    pub colors: Colors,
    pub show_logo: bool,
}

/// The color entries that a stored record holds; `None` where a key is absent.
pub struct ColorsPatch {
    pub label: Option<String>,
    pub value: Option<String>,
    pub logo: Option<String>,
}

/// The settings that a stored record holds; `None` where a key is absent.
pub struct ConfigPatch {
    pub font: Option<String>,
    pub font_size: Option<u8>,
    pub spacing: Option<u8>,
    pub info_order: Option<Vec<String>>,
    pub colors: Option<ColorsPatch>,
    pub show_logo: Option<bool>,
}

pub const DEFAULT_FONT_SIZE: u8 = 12;

pub const DEFAULT_SPACING: u8 = 10;

/// The order of the fields shown by default, by key.
pub open spec fn default_order() -> Seq<Seq<char>> {
    seq![
        "OS"@,
        "Architecture"@,
        "Kernel"@,
        "Shell"@,
        "Desktop"@,
        "Packages"@,
        "Uptime"@,
        "WM"@,
        "Theme"@,
        "Icons"@,
        "Terminal"@,
    ]
}

pub open spec fn strings_view(v: Seq<String>) -> Seq<Seq<char>> {
    v.map_values(|s: String| s@)
}

pub open spec fn default_label() -> Seq<char> {
    "blue"@
}

pub open spec fn default_value() -> Seq<char> {
    "white"@
}

pub open spec fn default_logo() -> Seq<char> {
    "cyan"@
}

pub open spec fn is_default_colors(c: Colors) -> bool {
    c.label@ == default_label() && c.value@ == default_value() && c.logo@ == default_logo()
}

/// Whether `c` holds exactly the documented defaults.
pub open spec fn is_default_config(c: Config) -> bool {
    &&& c.font@ == "default"@
    &&& c.font_size == DEFAULT_FONT_SIZE
    &&& c.spacing == DEFAULT_SPACING
    &&& strings_view(c.info_order@) == default_order()
    &&& is_default_colors(c.colors)
    &&& c.show_logo
}

pub open spec fn text_or(p: Option<String>, d: Seq<char>) -> Seq<char> {
    match p {
        Some(s) => s@,
        None => d,
    }
}

/// `c` holds each entry present in `p` and the default for each absent one.
pub open spec fn colors_from(c: Colors, p: Option<ColorsPatch>) -> bool {
    match p {
        Some(p) => {
            &&& c.label@ == text_or(p.label, default_label())
            &&& c.value@ == text_or(p.value, default_value())
            &&& c.logo@ == text_or(p.logo, default_logo())
        },
        None => is_default_colors(c),
    }
}

/// `c` holds each setting present in `p` and the default for each absent one.
pub open spec fn config_from(c: Config, p: ConfigPatch) -> bool {
    &&& c.font@ == text_or(p.font, "default"@)
    &&& c.font_size == (match p.font_size {
        Some(v) => v,
        None => DEFAULT_FONT_SIZE,
    })
    &&& c.spacing == (match p.spacing {
        Some(v) => v,
        None => DEFAULT_SPACING,
    })
    &&& strings_view(c.info_order@) == (match p.info_order {
        Some(v) => strings_view(v@),
        None => default_order(),
    })
    &&& colors_from(c.colors, p.colors)
    &&& c.show_logo == (match p.show_logo {
        Some(v) => v,
        None => true,
    })
}

fn text(s: &str) -> (r: String)
    ensures
        r@ == s@,
{
    String::from_str(s)
}

/// The documented order of the shown fields.
pub fn default_info_order() -> (r: Vec<String>)
    ensures
        strings_view(r@) == default_order(),
{
    let r = vec![
        text("OS"),
        text("Architecture"),
        text("Kernel"),
        text("Shell"),
        text("Desktop"),
        text("Packages"),
        text("Uptime"),
        text("WM"),
        text("Theme"),
        text("Icons"),
        text("Terminal"),
    ];
    assert(strings_view(r@) =~= default_order());
    r
}

impl Default for Colors {
    fn default() -> (r: Colors)
        ensures
            is_default_colors(r),
    {
        Colors { label: text("blue"), value: text("white"), logo: text("cyan") }
    }
}

impl Default for Config {
    fn default() -> (r: Config)
        ensures
            is_default_config(r),
    {
        Config {
            font: text("default"),
            font_size: DEFAULT_FONT_SIZE,
            spacing: DEFAULT_SPACING,
            info_order: default_info_order(),
            colors: Colors::default(),
            show_logo: true,
        }
    }
}

fn text_or_default(p: Option<String>, d: &str) -> (r: String)
    ensures
        r@ == text_or(p, d@),
{
    match p {
        Some(s) => s,
        None => text(d),
    }
}

impl Colors {
    /// The stored entries, with the default for each absent one.
    pub fn from_patch(p: Option<ColorsPatch>) -> (r: Colors)
        ensures
            colors_from(r, p),
    {
        match p {
            Some(p) => Colors {
                label: text_or_default(p.label, "blue"),
                value: text_or_default(p.value, "white"),
                logo: text_or_default(p.logo, "cyan"),
            },
            None => Colors::default(),
        }
    }
}

impl Config {
    /// The stored settings, with the default for each absent one.
    pub fn from_patch(p: ConfigPatch) -> (r: Config)
        ensures
            config_from(r, p),
    {
        let info_order = match p.info_order {
            Some(v) => v,
            None => default_info_order(),
        };
        let font_size = match p.font_size {
            Some(v) => v,
            None => DEFAULT_FONT_SIZE,
        };
        let spacing = match p.spacing {
            Some(v) => v,
            None => DEFAULT_SPACING,
        };
        let show_logo = match p.show_logo {
            Some(v) => v,
            None => true,
        };
        Config {
            font: text_or_default(p.font, "default"),
            font_size,
            spacing,
            info_order,
            colors: Colors::from_patch(p.colors),
            show_logo,
        }
    }

    /// What a run uses, given the stored record (`None` when no file exists
    /// yet), and whether that record must be written out as the new file.
    pub fn settle(stored: Option<ConfigPatch>) -> (r: (Config, bool))
        ensures
            match stored {
                Some(p) => config_from(r.0, p) && !r.1,
                None => is_default_config(r.0) && r.1,
            },
    {
        match stored {
            Some(p) => (Config::from_patch(p), false),
            None => (Config::default(), true),
        }
    }
}

/// A record with no keys at all completes to exactly the defaults, so the file
/// written on a first run reads back as the configuration that run used.
pub proof fn lemma_empty_record_is_default(c: Config)
    requires
        config_from(
            c,
            (ConfigPatch {
                font: None,
                font_size: None,
                spacing: None,
                info_order: None,
                colors: None,
                show_logo: None,
            }),
        ),
    ensures
        is_default_config(c),
{
}

} // verus!
