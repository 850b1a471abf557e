//! App configuration.

use vstd::prelude::*;
use vstd::utf8::*;

use crate::render::Theme;
use crate::windows_theme::ColorScheme;

verus! {

/// The contents of a configuration file.
#[derive(Debug)]
pub struct AppConfig {
    pub colors: ColorsConfig,
    pub menu: MenuConfig,
}

/// What a configuration file says about menus.
#[derive(Debug)]
pub struct MenuConfig {
    pub show_hotkey: Option<String>,
    pub max_title_length: usize,
    pub max_combined_title_length: usize,
}

/// The colors for the two color schemes.
#[derive(Debug)]
pub struct ColorsConfig {
    pub dark: ColorConfig,
    pub light: ColorConfig,
}

/// The colors for one color scheme, each as `#RRGGBB` or `#RRGGBBAA`.
#[derive(Debug)]
pub struct ColorConfig {
    pub focused: String,
    pub non_empty_1: String,
    pub non_empty_2: String,
    pub non_empty_3_plus: String,
    pub full_screen_border: String,
    pub active_monitor_border: String,
    pub inactive_monitor_border: String,
    pub empty: String,
}

/// The themes for the two color schemes.
#[derive(Copy, Clone, Eq, PartialEq, Debug)]
pub struct ThemeSet {
    pub dark: Theme,
    pub light: Theme,
}

/// The settings that the application runs with.
#[derive(Debug)]
pub struct AppSettings {
    pub themes: ThemeSet,
    pub show_hotkey: Option<String>,
    pub max_title_length: usize,
    pub max_combined_title_length: usize,
}

/// A channel of a color.
#[derive(Copy, Clone, Eq, PartialEq, Debug, Structural)]
pub enum Channel {
    Red,
    Green,
    Blue,
    Alpha,
}

/// Why a text is no color.
#[derive(Copy, Clone, Eq, PartialEq, Debug, Structural)]
pub enum ColorError {
    /// It does not start with `#`.
    MissingHash,
    /// What follows has neither six nor eight bytes.
    BadLength,
    /// This is the first channel that is no hexadecimal number.
    Channel(Channel),
}

/// A color of a theme.
#[derive(Copy, Clone, Eq, PartialEq, Debug, Structural)]
pub enum ColorField {
    Focused,
    NonEmpty1,
    NonEmpty2,
    NonEmpty3Plus,
    FullScreenBorder,
    ActiveMonitorBorder,
    InactiveMonitorBorder,
    Empty,
}

/// Why settings could not be loaded.
#[derive(Copy, Clone, Eq, PartialEq, Debug, Structural)]
pub enum ConfigError {
    /// The configuration file is there and cannot be read.
    Unreadable,
    /// The configuration file is not of the right form.
    Malformed,
    /// This is the first color that is none.
    Color { scheme: ColorScheme, field: ColorField, error: ColorError },
}

/// What was found where the configuration file is looked for.
#[derive(Debug)]
pub enum ConfigSource {
    /// There is no directory to look in.
    NoPath,
    /// The file does not exist.
    Missing,
    /// The file cannot be read.
    Unreadable,
    /// The file is not of the right form.
    Malformed,
    /// The file holds this configuration.
    Parsed(AppConfig),
}

// ---------------------------------------------------------------------------
// Colors
// ---------------------------------------------------------------------------

/// The number that a byte stands for as a hexadecimal digit of either case.
pub open spec fn hex_byte(b: u8) -> Option<int> {
    if 0x30 <= b <= 0x39 {
        Some(b - 0x30)
    } else if 0x61 <= b <= 0x66 {
        Some(b - 0x61 + 10)
    } else if 0x41 <= b <= 0x46 {
        Some(b - 0x41 + 10)
    } else {
        None
    }
}

/// The value of a channel, from its two bytes: two hexadecimal digits, or a
/// plus sign and one.
pub open spec fn channel_value(hi: u8, lo: u8) -> Option<int> {
    match (hex_byte(hi), hex_byte(lo)) {
        (Some(h), Some(l)) => Some(h * 16 + l),
        (None, Some(l)) if hi == 0x2b => Some(l),
        _ => None,
    }
}

/// The value of channel `k` of a color.
pub open spec fn channel(bytes: Seq<u8>, k: int) -> Option<int> {
    channel_value(bytes[1 + 2 * k], bytes[2 + 2 * k])
}

/// The color that a text stands for, from its bytes. Alpha is opaque where it
/// is not given.
pub open spec fn color_of(bytes: Seq<u8>) -> Result<Seq<u8>, ColorError> {
    if bytes.len() == 0 || bytes[0] != 0x23 {
        Err(ColorError::MissingHash)
    } else if bytes.len() != 7 && bytes.len() != 9 {
        Err(ColorError::BadLength)
    } else if channel(bytes, 0) is None {
        Err(ColorError::Channel(Channel::Red))
    } else if channel(bytes, 1) is None {
        Err(ColorError::Channel(Channel::Green))
    } else if channel(bytes, 2) is None {
        Err(ColorError::Channel(Channel::Blue))
    } else if bytes.len() == 7 {
        Ok(
            seq![
                channel(bytes, 0)->0 as u8,
                channel(bytes, 1)->0 as u8,
                channel(bytes, 2)->0 as u8,
                0xFF,
            ],
        )
    } else if channel(bytes, 3) is None {
        Err(ColorError::Channel(Channel::Alpha))
    } else {
        Ok(
            seq![
                channel(bytes, 0)->0 as u8,
                channel(bytes, 1)->0 as u8,
                channel(bytes, 2)->0 as u8,
                channel(bytes, 3)->0 as u8,
            ],
        )
    }
}

/// From channel `k` on, no character lies across the end of a channel, as far
/// as the channels before it are numbers.
pub open spec fn channels_split(bytes: Seq<u8>, k: int, n: int) -> bool
    decreases n - k,
{
    k >= n || (is_char_boundary(bytes, 3 + 2 * k) && (channel(bytes, k) is Some ==> channels_split(
        bytes,
        k + 1,
        n,
    )))
}

/// A text can be taken apart into channels: where it has the right length, no
/// character lies across the end of the first channel that is no number, or of
/// one before it.
pub open spec fn color_readable(bytes: Seq<u8>) -> bool {
    if bytes.len() == 0 || bytes[0] != 0x23 {
        true
    } else if bytes.len() == 7 {
        channels_split(bytes, 0, 3)
    } else if bytes.len() == 9 {
        channels_split(bytes, 0, 4)
    } else {
        true
    }
}

fn hex_digit_value(b: u8) -> (v: Option<u8>)
    ensures
        match v {
            Some(n) => hex_byte(b) == Some(n as int) && n < 16,
            None => hex_byte(b) is None,
        },
{
    if 0x30 <= b && b <= 0x39 {
        Some(b - 0x30)
    } else if 0x61 <= b && b <= 0x66 {
        Some(b - 0x57)
    } else if 0x41 <= b && b <= 0x46 {
        Some(b - 0x37)
    } else {
        None
    }
}

fn read_channel(hi: u8, lo: u8) -> (value: Option<u8>)
    ensures
        match value {
            Some(v) => channel_value(hi, lo) == Some(v as int),
            None => channel_value(hi, lo) is None,
        },
{
    match (hex_digit_value(hi), hex_digit_value(lo)) {
        (Some(h), Some(l)) => Some(h * 16 + l),
        (None, Some(l)) => if hi == 0x2b {
            Some(l)
        } else {
            None
        },
        _ => None,
    }
}

/// Whether a color can be taken apart into channels.
pub fn is_color_readable(value: &str) -> (readable: bool)
    ensures
        readable == color_readable(encode_utf8(value@)),
{
    let bytes: &[u8] = value.as_bytes();
    if bytes.len() == 0 || bytes[0] != 0x23 || (bytes.len() != 7 && bytes.len() != 9) {
        return true;
    }
    let n: usize = if bytes.len() == 7 {
        3
    } else {
        4
    };
    let mut k: usize = 0;
    while k < n
        invariant
            k <= n <= 4,
            bytes@ == encode_utf8(value@),
            bytes@.len() == 1 + 2 * n,
            color_readable(bytes@) == channels_split(bytes@, k as int, n as int),
        decreases n - k,
    {
        if !value.is_char_boundary(3 + 2 * k) {
            return false;
        }
        if read_channel(bytes[1 + 2 * k], bytes[2 + 2 * k]).is_none() {
            return true;
        }
        k += 1;
    }
    true
}

/// Parses a color in the form `#RRGGBB` or `#RRGGBBAA`.
pub fn parse_hex_color(value: &str) -> (color: Result<[u8; 4], ColorError>)
    requires
        color_readable(encode_utf8(value@)),
    ensures
        match color {
            Ok(c) => color_of(encode_utf8(value@)) == Ok::<Seq<u8>, ColorError>(c@),
            Err(e) => color_of(encode_utf8(value@)) == Err::<Seq<u8>, ColorError>(e),
        },
{
    let bytes: &[u8] = value.as_bytes();
    if bytes.len() == 0 || bytes[0] != 0x23 {
        return Err(ColorError::MissingHash);
    }
    if bytes.len() != 7 && bytes.len() != 9 {
        return Err(ColorError::BadLength);
    }
    let r: u8 = match read_channel(bytes[1], bytes[2]) {
        Some(v) => v,
        None => return Err(ColorError::Channel(Channel::Red)),
    };
    let g: u8 = match read_channel(bytes[3], bytes[4]) {
        Some(v) => v,
        None => return Err(ColorError::Channel(Channel::Green)),
    };
    let b: u8 = match read_channel(bytes[5], bytes[6]) {
        Some(v) => v,
        None => return Err(ColorError::Channel(Channel::Blue)),
    };
    let a: u8 = if bytes.len() == 7 {
        0xFF
    } else {
        match read_channel(bytes[7], bytes[8]) {
            Some(v) => v,
            None => return Err(ColorError::Channel(Channel::Alpha)),
        }
    };
    let color: [u8; 4] = [r, g, b, a];
    proof {
        assert(color@ =~= seq![r, g, b, a]);
    }
    Ok(color)
}

// ---------------------------------------------------------------------------
// Themes
// ---------------------------------------------------------------------------

/// The color that a text stands for.
#[verifier::opaque]
pub open spec fn text_color(value: Seq<char>) -> Result<Seq<u8>, ColorError> {
    color_of(encode_utf8(value))
}

/// A text can be taken apart into channels.
#[verifier::opaque]
pub open spec fn text_readable(value: Seq<char>) -> bool {
    color_readable(encode_utf8(value))
}

/// The colors of a configuration, in the order in which they are read.
pub open spec fn color_texts(config: ColorConfig) -> Seq<Seq<char>> {
    seq![
        config.focused@,
        config.non_empty_1@,
        config.non_empty_2@,
        config.non_empty_3_plus@,
        config.full_screen_border@,
        config.active_monitor_border@,
        config.inactive_monitor_border@,
        config.empty@,
    ]
}

/// The colors of a theme, in the same order.
pub open spec fn theme_colors(theme: Theme) -> Seq<Seq<u8>> {
    seq![
        theme.focused@,
        theme.non_empty_1@,
        theme.non_empty_2@,
        theme.non_empty_3_plus@,
        theme.full_screen_border@,
        theme.active_monitor_border@,
        theme.inactive_monitor_border@,
        theme.empty@,
    ]
}

/// The names of the colors, in the same order.
pub open spec fn field_at(k: int) -> ColorField {
    if k == 0 {
        ColorField::Focused
    } else if k == 1 {
        ColorField::NonEmpty1
    } else if k == 2 {
        ColorField::NonEmpty2
    } else if k == 3 {
        ColorField::NonEmpty3Plus
    } else if k == 4 {
        ColorField::FullScreenBorder
    } else if k == 5 {
        ColorField::ActiveMonitorBorder
    } else if k == 6 {
        ColorField::InactiveMonitorBorder
    } else {
        ColorField::Empty
    }
}

/// From color `k` on, every color can be taken apart, as far as those before
/// it are colors.
pub open spec fn colors_readable(texts: Seq<Seq<char>>, k: int) -> bool
    decreases texts.len() - k,
{
    k >= texts.len() || (text_readable(texts[k]) && (text_color(texts[k]) is Ok ==> colors_readable(
        texts,
        k + 1,
    )))
}

/// The first color from color `k` on that is none, and why.
pub open spec fn first_bad_color(texts: Seq<Seq<char>>, k: int) -> Option<(int, ColorError)>
    decreases texts.len() - k,
{
    if k >= texts.len() {
        None
    } else {
        match text_color(texts[k]) {
            Ok(_) => first_bad_color(texts, k + 1),
            Err(e) => Some((k, e)),
        }
    }
}

/// A theme has exactly the colors of a configuration.
pub open spec fn is_theme_of(theme: Theme, config: ColorConfig) -> bool {
    forall|i: int|
        0 <= i < 8 ==> text_color(#[trigger] color_texts(config)[i]) == Ok::<Seq<u8>, ColorError>(
            theme_colors(theme)[i],
        )
}

/// The color at place `k` of a configuration, and its name.
fn field_text<'a>(config: &'a ColorConfig, k: usize) -> (field: (&'a String, ColorField))
    requires
        k < 8,
    ensures
        field.0@ == color_texts(*config)[k as int],
        field.1 == field_at(k as int),
{
    if k == 0 {
        (&config.focused, ColorField::Focused)
    } else if k == 1 {
        (&config.non_empty_1, ColorField::NonEmpty1)
    } else if k == 2 {
        (&config.non_empty_2, ColorField::NonEmpty2)
    } else if k == 3 {
        (&config.non_empty_3_plus, ColorField::NonEmpty3Plus)
    } else if k == 4 {
        (&config.full_screen_border, ColorField::FullScreenBorder)
    } else if k == 5 {
        (&config.active_monitor_border, ColorField::ActiveMonitorBorder)
    } else if k == 6 {
        (&config.inactive_monitor_border, ColorField::InactiveMonitorBorder)
    } else {
        (&config.empty, ColorField::Empty)
    }
}

/// Builds the theme for a color scheme. The colors are read one after the
/// other, up to the first one that is none.
pub fn build_theme(config: &ColorConfig, scheme: ColorScheme) -> (theme: Result<Theme, ConfigError>)
    requires
        colors_readable(color_texts(*config), 0),
    ensures
        match theme {
            Ok(t) => is_theme_of(t, *config) && first_bad_color(color_texts(*config), 0) is None,
            Err(e) => first_bad_color(color_texts(*config), 0) matches Some((k, error)) && e
                == (ConfigError::Color { scheme, field: field_at(k), error }),
        },
{
    let ghost texts = color_texts(*config);
    let mut colors: Vec<[u8; 4]> = Vec::new();
    let mut k: usize = 0;
    while k < 8
        invariant
            k <= 8,
            texts == color_texts(*config),
            colors_readable(texts, k as int),
            first_bad_color(texts, 0) == first_bad_color(texts, k as int),
            colors@.len() == k,
            forall|i: int|
                0 <= i < k ==> text_color(#[trigger] texts[i]) == Ok::<Seq<u8>, ColorError>(
                    colors@[i]@,
                ),
        decreases 8 - k,
    {
        let (value, field) = field_text(config, k);
        proof {
            reveal(text_color);
            reveal(text_readable);
        }
        match parse_hex_color(value.as_str()) {
            Ok(color) => {
                colors.push(color);
            },
            Err(error) => {
                return Err(ConfigError::Color { scheme, field, error });
            },
        }
        k += 1;
    }
    let theme = Theme {
        focused: colors[0],
        non_empty_1: colors[1],
        non_empty_2: colors[2],
        non_empty_3_plus: colors[3],
        full_screen_border: colors[4],
        active_monitor_border: colors[5],
        inactive_monitor_border: colors[6],
        empty: colors[7],
    };
    proof {
        assert forall|i: int| 0 <= i < 8 implies text_color(#[trigger] color_texts(*config)[i])
            == Ok::<Seq<u8>, ColorError>(theme_colors(theme)[i]) by {
            assert(theme_colors(theme)[i] == colors@[i]@);
        }
    }
    Ok(theme)
}

// ---------------------------------------------------------------------------
// Messages
// ---------------------------------------------------------------------------

/// What a channel is called.
pub open spec fn channel_name(channel: Channel) -> Seq<char> {
    match channel {
        Channel::Red => "red"@,
        Channel::Green => "green"@,
        Channel::Blue => "blue"@,
        Channel::Alpha => "alpha"@,
    }
}

/// Where the colors of a color scheme stand in the configuration.
pub open spec fn scope_of(scheme: ColorScheme) -> Seq<char> {
    match scheme {
        ColorScheme::Dark => "colors.dark"@,
        ColorScheme::Light => "colors.light"@,
    }
}

/// What a color is called in the configuration.
pub open spec fn name_of(field: ColorField) -> Seq<char> {
    match field {
        ColorField::Focused => "focused"@,
        ColorField::NonEmpty1 => "non_empty_1"@,
        ColorField::NonEmpty2 => "non_empty_2"@,
        ColorField::NonEmpty3Plus => "non_empty_3_plus"@,
        ColorField::FullScreenBorder => "full_screen_border"@,
        ColorField::ActiveMonitorBorder => "active_monitor_border"@,
        ColorField::InactiveMonitorBorder => "inactive_monitor_border"@,
        ColorField::Empty => "empty"@,
    }
}

/// What has failed. Of a color, the message names the place in the configuration.
pub open spec fn message_of(error: ConfigError) -> Seq<char> {
    match error {
        ConfigError::Unreadable => "read config file"@,
        ConfigError::Malformed => "parse config file as JSON"@,
        ConfigError::Color { scheme, field, .. } => "parse "@ + scope_of(scheme) + "."@ + name_of(
            field,
        ) + " as hex color"@,
    }
}

fn scope_text(scheme: ColorScheme) -> (text: &'static str)
    ensures
        text@ == scope_of(scheme),
{
    match scheme {
        ColorScheme::Dark => "colors.dark",
        ColorScheme::Light => "colors.light",
    }
}

fn field_name(field: ColorField) -> (text: &'static str)
    ensures
        text@ == name_of(field),
{
    match field {
        ColorField::Focused => "focused",
        ColorField::NonEmpty1 => "non_empty_1",
        ColorField::NonEmpty2 => "non_empty_2",
        ColorField::NonEmpty3Plus => "non_empty_3_plus",
        ColorField::FullScreenBorder => "full_screen_border",
        ColorField::ActiveMonitorBorder => "active_monitor_border",
        ColorField::InactiveMonitorBorder => "inactive_monitor_border",
        ColorField::Empty => "empty",
    }
}

impl ColorError {
    /// Says why a text is no color.
    pub fn message(&self) -> (text: String)
        ensures
            text@ == (match *self {
                ColorError::MissingHash => "must start with '#'"@,
                ColorError::BadLength => "must be #RRGGBB or #RRGGBBAA"@,
                ColorError::Channel(channel) => "invalid "@ + channel_name(channel) + " channel"@,
            }),
    {
        match *self {
            ColorError::MissingHash => "must start with '#'".to_owned(),
            ColorError::BadLength => "must be #RRGGBB or #RRGGBBAA".to_owned(),
            ColorError::Channel(channel) => {
                let name: &str = match channel {
                    Channel::Red => "red",
                    Channel::Green => "green",
                    Channel::Blue => "blue",
                    Channel::Alpha => "alpha",
                };
                "invalid ".to_owned().concat(name).concat(" channel")
            },
        }
    }
}

impl ConfigError {
    /// Says what has failed. Of a color, this names the place in the configuration;
    /// why it is none is said by [`ColorError::message`].
    pub fn message(&self) -> (text: String)
        ensures
            text@ == message_of(*self),
    {
        match *self {
            ConfigError::Unreadable => "read config file".to_owned(),
            ConfigError::Malformed => "parse config file as JSON".to_owned(),
            ConfigError::Color { scheme, field, .. } => "parse ".to_owned().concat(
                scope_text(scheme),
            ).concat(".").concat(field_name(field)).concat(" as hex color"),
        }
    }

    /// Says what has failed, and names the configuration file where it is about
    /// that file.
    pub fn message_for(&self, path: &str) -> (text: String)
        ensures
            text@ == (match *self {
                ConfigError::Unreadable => "read config file "@ + path@,
                ConfigError::Malformed => "parse config file "@ + path@ + " as JSON"@,
                ConfigError::Color { .. } => message_of(*self),
            }),
    {
        match *self {
            ConfigError::Unreadable => "read config file ".to_owned().concat(path),
            ConfigError::Malformed => "parse config file ".to_owned().concat(path).concat(
                " as JSON",
            ),
            ConfigError::Color { .. } => self.message(),
        }
    }
}

// ---------------------------------------------------------------------------
// Defaults
// ---------------------------------------------------------------------------

/// The default color of the focused workspace.
pub fn default_focused() -> (color: String)
    ensures
        color@ == "#2E9BFFFF"@,
{
    "#2E9BFFFF".to_owned()
}

/// The default color of a workspace with one window. The configurable themes tell
/// the number of windows by three shades of gray, where the standard colors have
/// the one gray [`crate::render::COLOR_NON_EMPTY`].
pub fn default_non_empty_1() -> (color: String)
    ensures
        color@ == "#6B6B6BFF"@,
{
    "#6B6B6BFF".to_owned()
}

/// The default color of a workspace with two windows.
pub fn default_non_empty_2() -> (color: String)
    ensures
        color@ == "#8C8C8CFF"@,
{
    "#8C8C8CFF".to_owned()
}

/// The default color of a workspace with three or more windows.
pub fn default_non_empty_3_plus() -> (color: String)
    ensures
        color@ == "#B0B0B0FF"@,
{
    "#B0B0B0FF".to_owned()
}

/// The default color of the border of a workspace with a full-screen window.
pub fn default_full_screen_border() -> (color: String)
    ensures
        color@ == "#FFD500FF"@,
{
    "#FFD500FF".to_owned()
}

/// The default color of the outer border of the focused monitor.
pub fn default_active_monitor_border() -> (color: String)
    ensures
        color@ == "#2E9BFFFF"@,
{
    "#2E9BFFFF".to_owned()
}

/// The default color of the outer border of the other monitors.
pub fn default_inactive_monitor_border() -> (color: String)
    ensures
        color@ == "#808080FF"@,
{
    "#808080FF".to_owned()
}

/// The default color of an empty workspace.
pub fn default_empty() -> (color: String)
    ensures
        color@ == "#00000000"@,
{
    "#00000000".to_owned()
}

/// The default bound on the length of a window title.
pub fn default_max_title_length() -> (n: usize)
    ensures
        n == 64,
{
    64
}

/// The default bound on the length of the joined titles of a workspace.
pub fn default_max_combined_title_length() -> (n: usize)
    ensures
        n == 96,
{
    96
}

/// The default colors for the dark color scheme.
pub open spec fn has_dark_defaults(config: ColorConfig) -> bool {
    &&& config.focused@ == "#2E9BFFFF"@
    &&& config.non_empty_1@ == "#6B6B6BFF"@
    &&& config.non_empty_2@ == "#8C8C8CFF"@
    &&& config.non_empty_3_plus@ == "#B0B0B0FF"@
    &&& config.full_screen_border@ == "#FFD500FF"@
    &&& config.active_monitor_border@ == "#2E9BFFFF"@
    &&& config.inactive_monitor_border@ == "#808080FF"@
    &&& config.empty@ == "#00000000"@
}

/// The default colors for the light color scheme.
pub open spec fn has_light_defaults(config: ColorConfig) -> bool {
    &&& config.focused@ == "#0067C0FF"@
    &&& config.non_empty_1@ == "#868686FF"@
    &&& config.non_empty_2@ == "#6A6A6AFF"@
    &&& config.non_empty_3_plus@ == "#4F4F4FFF"@
    &&& config.full_screen_border@ == "#C7A000FF"@
    &&& config.active_monitor_border@ == "#0067C0FF"@
    &&& config.inactive_monitor_border@ == "#6A6A6AFF"@
    &&& config.empty@ == "#00000000"@
}

impl Default for ColorConfig {
    fn default() -> (config: ColorConfig)
        ensures
            has_dark_defaults(config),
    {
        ColorConfig {
            focused: default_focused(),
            non_empty_1: default_non_empty_1(),
            non_empty_2: default_non_empty_2(),
            non_empty_3_plus: default_non_empty_3_plus(),
            full_screen_border: default_full_screen_border(),
            active_monitor_border: default_active_monitor_border(),
            inactive_monitor_border: default_inactive_monitor_border(),
            empty: default_empty(),
        }
    }
}

/// The default colors for the dark color scheme: the standard ones, but for the
/// three shades of the workspaces with windows.
pub fn default_dark_colors() -> (config: ColorConfig)
    ensures
        has_dark_defaults(config),
{
    ColorConfig::default()
}

/// The default colors for the light color scheme.
pub fn default_light_colors() -> (config: ColorConfig)
    ensures
        has_light_defaults(config),
{
    ColorConfig {
        focused: "#0067C0FF".to_owned(),
        non_empty_1: "#868686FF".to_owned(),
        non_empty_2: "#6A6A6AFF".to_owned(),
        non_empty_3_plus: "#4F4F4FFF".to_owned(),
        full_screen_border: "#C7A000FF".to_owned(),
        active_monitor_border: "#0067C0FF".to_owned(),
        inactive_monitor_border: "#6A6A6AFF".to_owned(),
        empty: "#00000000".to_owned(),
    }
}

impl Default for ColorsConfig {
    fn default() -> (config: ColorsConfig)
        ensures
            has_dark_defaults(config.dark),
            has_light_defaults(config.light),
    {
        ColorsConfig { dark: default_dark_colors(), light: default_light_colors() }
    }
}

impl Default for MenuConfig {
    /// What an absent section about menus stands for. Only within the section
    /// do the two lengths have defaults of their own.
    fn default() -> (config: MenuConfig)
        ensures
            config == (MenuConfig {
                show_hotkey: None,
                max_title_length: 0,
                max_combined_title_length: 0,
            }),
    {
        MenuConfig { show_hotkey: None, max_title_length: 0, max_combined_title_length: 0 }
    }
}

impl Default for AppConfig {
    fn default() -> (config: AppConfig)
        ensures
            has_dark_defaults(config.colors.dark),
            has_light_defaults(config.colors.light),
            config.menu == (MenuConfig {
                show_hotkey: None,
                max_title_length: 0,
                max_combined_title_length: 0,
            }),
    {
        AppConfig { colors: ColorsConfig::default(), menu: MenuConfig::default() }
    }
}

/// The colors of the default theme for the dark color scheme.
pub open spec fn dark_colors() -> Seq<Seq<u8>> {
    seq![
        seq![0x2Eu8, 0x9B, 0xFF, 0xFF],
        seq![0x6Bu8, 0x6B, 0x6B, 0xFF],
        seq![0x8Cu8, 0x8C, 0x8C, 0xFF],
        seq![0xB0u8, 0xB0, 0xB0, 0xFF],
        seq![0xFFu8, 0xD5, 0x00, 0xFF],
        seq![0x2Eu8, 0x9B, 0xFF, 0xFF],
        seq![0x80u8, 0x80, 0x80, 0xFF],
        seq![0x00u8, 0x00, 0x00, 0x00],
    ]
}

/// The colors of the default theme for the light color scheme.
pub open spec fn light_colors() -> Seq<Seq<u8>> {
    seq![
        seq![0x00u8, 0x67, 0xC0, 0xFF],
        seq![0x86u8, 0x86, 0x86, 0xFF],
        seq![0x6Au8, 0x6A, 0x6A, 0xFF],
        seq![0x4Fu8, 0x4F, 0x4F, 0xFF],
        seq![0xC7u8, 0xA0, 0x00, 0xFF],
        seq![0x00u8, 0x67, 0xC0, 0xFF],
        seq![0x6Au8, 0x6A, 0x6A, 0xFF],
        seq![0x00u8, 0x00, 0x00, 0x00],
    ]
}

/// A text of ASCII characters can always be taken apart into channels.
pub proof fn law_ascii_colors_are_readable(value: Seq<char>)
    requires
        is_ascii_chars(value),
    ensures
        color_readable(encode_utf8(value)),
{
    let bytes = encode_utf8(value);
    is_ascii_chars_encode_utf8(value);
    encode_utf8_valid_utf8(value);
    is_char_boundary_start_end_of_seq(bytes);
    assert forall|i: int| 0 < i <= bytes.len() implies #[trigger] is_char_boundary(bytes, i) by {
        if i < bytes.len() {
            assert(value[i] as u8 == bytes[i]);
            is_char_boundary_iff_not_is_continuation_byte(bytes, i);
        }
    }
    reveal_with_fuel(channels_split, 5);
}

/// The upper-case hexadecimal digit of a number below sixteen.
spec fn upper_digit(v: int) -> char {
    if v < 10 {
        (0x30 + v) as char
    } else {
        (0x41 + v - 10) as char
    }
}

/// `#` and the eight upper-case hexadecimal digits of four bytes.
spec fn rgba_text(r: u8, g: u8, b: u8, a: u8) -> Seq<char> {
    seq![
        '#',
        upper_digit(r as int / 16),
        upper_digit(r as int % 16),
        upper_digit(g as int / 16),
        upper_digit(g as int % 16),
        upper_digit(b as int / 16),
        upper_digit(b as int % 16),
        upper_digit(a as int / 16),
        upper_digit(a as int % 16),
    ]
}

/// A text that spells out four bytes stands for the color that they are.
proof fn lemma_rgba_text(value: Seq<char>, r: u8, g: u8, b: u8, a: u8)
    requires
        value == rgba_text(r, g, b, a),
    ensures
        text_readable(value),
        text_color(value) == Ok::<Seq<u8>, ColorError>(seq![r, g, b, a]),
{
    let digits = seq![
        r as int / 16,
        r as int % 16,
        g as int / 16,
        g as int % 16,
        b as int / 16,
        b as int % 16,
        a as int / 16,
        a as int % 16,
    ];
    assert forall|i: int| 0 <= i < 8 implies 0 <= #[trigger] digits[i] < 16 && value[i + 1]
        == upper_digit(digits[i]) by {}
    assert forall|i: int| 1 <= i < 9 implies hex_byte(#[trigger] value[i] as u8) == Some(
        digits[i - 1],
    ) by {
        lemma_upper_digit(digits[i - 1]);
    }
    assert(is_ascii_chars(value)) by {
        assert forall|i: int| 0 <= i < 9 implies '\0' <= #[trigger] value[i] <= '\u{7f}' by {
            if i > 0 {
                lemma_upper_digit(digits[i - 1]);
            }
        }
    }
    lemma_rgba(value);
    assert(hex_byte(value[1] as u8) == Some(digits[0]) && hex_byte(value[2] as u8) == Some(digits[1]));
    assert(hex_byte(value[3] as u8) == Some(digits[2]) && hex_byte(value[4] as u8) == Some(digits[3]));
    assert(hex_byte(value[5] as u8) == Some(digits[4]) && hex_byte(value[6] as u8) == Some(digits[5]));
    assert(hex_byte(value[7] as u8) == Some(digits[6]) && hex_byte(value[8] as u8) == Some(digits[7]));
    assert(seq![
        (digits[0] * 16 + digits[1]) as u8,
        (digits[2] * 16 + digits[3]) as u8,
        (digits[4] * 16 + digits[5]) as u8,
        (digits[6] * 16 + digits[7]) as u8,
    ] =~= seq![r, g, b, a]);
    reveal(text_readable);
    reveal(text_color);
}

proof fn lemma_upper_digit(v: int)
    requires
        0 <= v < 16,
    ensures
        hex_byte(upper_digit(v) as u8) == Some(v),
        '\0' <= upper_digit(v) <= '\u{7f}',
{
}

/// The color that `#` and eight hexadecimal digits stand for.
proof fn lemma_rgba(value: Seq<char>)
    requires
        value.len() == 9,
        value[0] == '#',
        is_ascii_chars(value),
        forall|i: int| 1 <= i < 9 ==> hex_byte(#[trigger] value[i] as u8) is Some,
    ensures
        color_readable(encode_utf8(value)),
        color_of(encode_utf8(value)) == Ok::<Seq<u8>, ColorError>(
            seq![
                (hex_byte(value[1] as u8)->0 * 16 + hex_byte(value[2] as u8)->0) as u8,
                (hex_byte(value[3] as u8)->0 * 16 + hex_byte(value[4] as u8)->0) as u8,
                (hex_byte(value[5] as u8)->0 * 16 + hex_byte(value[6] as u8)->0) as u8,
                (hex_byte(value[7] as u8)->0 * 16 + hex_byte(value[8] as u8)->0) as u8,
            ],
        ),
{
    law_ascii_colors_are_readable(value);
    is_ascii_chars_encode_utf8(value);
    assert(value[0] as u8 == 0x23);
    assert forall|i: int| 0 <= i < 9 implies encode_utf8(value)[i] == #[trigger] value[i] as u8 by {}
    assert(hex_byte(value[1] as u8) is Some && hex_byte(value[2] as u8) is Some);
    assert(hex_byte(value[3] as u8) is Some && hex_byte(value[4] as u8) is Some);
    assert(hex_byte(value[5] as u8) is Some && hex_byte(value[6] as u8) is Some);
    assert(hex_byte(value[7] as u8) is Some && hex_byte(value[8] as u8) is Some);
}

/// Every text can be taken apart and stands for the given color.
pub open spec fn all_colors(texts: Seq<Seq<char>>, colors: Seq<Seq<u8>>) -> bool {
    forall|i: int|
        0 <= i < texts.len() ==> text_readable(#[trigger] texts[i]) && text_color(texts[i]) == Ok::<
            Seq<u8>,
            ColorError,
        >(colors[i])
}

proof fn lemma_all_colors(texts: Seq<Seq<char>>, colors: Seq<Seq<u8>>, k: int)
    requires
        all_colors(texts, colors),
        0 <= k <= texts.len(),
    ensures
        colors_readable(texts, k),
        first_bad_color(texts, k) is None,
    decreases texts.len() - k,
{
    if k < texts.len() {
        assert(text_readable(texts[k]));
        lemma_all_colors(texts, colors, k + 1);
    }
}

proof fn lemma_dark_defaults(config: ColorConfig)
    requires
        has_dark_defaults(config),
    ensures
        all_colors(color_texts(config), dark_colors()),
{
    assert("#2E9BFFFF"@ =~= rgba_text(0x2E, 0x9B, 0xFF, 0xFF)) by {
        reveal_strlit("#2E9BFFFF");
    }
    lemma_rgba_text("#2E9BFFFF"@, 0x2E, 0x9B, 0xFF, 0xFF);
    assert("#6B6B6BFF"@ =~= rgba_text(0x6B, 0x6B, 0x6B, 0xFF)) by {
        reveal_strlit("#6B6B6BFF");
    }
    lemma_rgba_text("#6B6B6BFF"@, 0x6B, 0x6B, 0x6B, 0xFF);
    assert("#8C8C8CFF"@ =~= rgba_text(0x8C, 0x8C, 0x8C, 0xFF)) by {
        reveal_strlit("#8C8C8CFF");
    }
    lemma_rgba_text("#8C8C8CFF"@, 0x8C, 0x8C, 0x8C, 0xFF);
    assert("#B0B0B0FF"@ =~= rgba_text(0xB0, 0xB0, 0xB0, 0xFF)) by {
        reveal_strlit("#B0B0B0FF");
    }
    lemma_rgba_text("#B0B0B0FF"@, 0xB0, 0xB0, 0xB0, 0xFF);
    assert("#FFD500FF"@ =~= rgba_text(0xFF, 0xD5, 0x00, 0xFF)) by {
        reveal_strlit("#FFD500FF");
    }
    lemma_rgba_text("#FFD500FF"@, 0xFF, 0xD5, 0x00, 0xFF);
    assert("#808080FF"@ =~= rgba_text(0x80, 0x80, 0x80, 0xFF)) by {
        reveal_strlit("#808080FF");
    }
    lemma_rgba_text("#808080FF"@, 0x80, 0x80, 0x80, 0xFF);
    assert("#00000000"@ =~= rgba_text(0x00, 0x00, 0x00, 0x00)) by {
        reveal_strlit("#00000000");
    }
    lemma_rgba_text("#00000000"@, 0x00, 0x00, 0x00, 0x00);
    let texts = color_texts(config);
    assert(texts[0] == "#2E9BFFFF"@);
    assert(texts[1] == "#6B6B6BFF"@);
    assert(texts[2] == "#8C8C8CFF"@);
    assert(texts[3] == "#B0B0B0FF"@);
    assert(texts[4] == "#FFD500FF"@);
    assert(texts[5] == "#2E9BFFFF"@);
    assert(texts[6] == "#808080FF"@);
    assert(texts[7] == "#00000000"@);
}

proof fn lemma_light_defaults(config: ColorConfig)
    requires
        has_light_defaults(config),
    ensures
        all_colors(color_texts(config), light_colors()),
{
    assert("#0067C0FF"@ =~= rgba_text(0x00, 0x67, 0xC0, 0xFF)) by {
        reveal_strlit("#0067C0FF");
    }
    lemma_rgba_text("#0067C0FF"@, 0x00, 0x67, 0xC0, 0xFF);
    assert("#868686FF"@ =~= rgba_text(0x86, 0x86, 0x86, 0xFF)) by {
        reveal_strlit("#868686FF");
    }
    lemma_rgba_text("#868686FF"@, 0x86, 0x86, 0x86, 0xFF);
    assert("#6A6A6AFF"@ =~= rgba_text(0x6A, 0x6A, 0x6A, 0xFF)) by {
        reveal_strlit("#6A6A6AFF");
    }
    lemma_rgba_text("#6A6A6AFF"@, 0x6A, 0x6A, 0x6A, 0xFF);
    assert("#4F4F4FFF"@ =~= rgba_text(0x4F, 0x4F, 0x4F, 0xFF)) by {
        reveal_strlit("#4F4F4FFF");
    }
    lemma_rgba_text("#4F4F4FFF"@, 0x4F, 0x4F, 0x4F, 0xFF);
    assert("#C7A000FF"@ =~= rgba_text(0xC7, 0xA0, 0x00, 0xFF)) by {
        reveal_strlit("#C7A000FF");
    }
    lemma_rgba_text("#C7A000FF"@, 0xC7, 0xA0, 0x00, 0xFF);
    assert("#00000000"@ =~= rgba_text(0x00, 0x00, 0x00, 0x00)) by {
        reveal_strlit("#00000000");
    }
    lemma_rgba_text("#00000000"@, 0x00, 0x00, 0x00, 0x00);
    let texts = color_texts(config);
    assert(texts[0] == "#0067C0FF"@);
    assert(texts[1] == "#868686FF"@);
    assert(texts[2] == "#6A6A6AFF"@);
    assert(texts[3] == "#4F4F4FFF"@);
    assert(texts[4] == "#C7A000FF"@);
    assert(texts[5] == "#0067C0FF"@);
    assert(texts[6] == "#6A6A6AFF"@);
    assert(texts[7] == "#00000000"@);
}

/// The theme of a configuration in which every color is one.
pub fn default_theme_from_colors(config: ColorConfig) -> (theme: Theme)
    requires
        colors_readable(color_texts(config), 0),
        first_bad_color(color_texts(config), 0) is None,
    ensures
        is_theme_of(theme, config),
{
    match build_theme(&config, ColorScheme::Dark) {
        Ok(theme) => theme,
        Err(_) => Theme::default(),
    }
}

impl ThemeSet {
    /// The theme for a color scheme.
    pub fn for_scheme(&self, scheme: ColorScheme) -> (theme: Theme)
        ensures
            theme == (match scheme {
                ColorScheme::Dark => self.dark,
                ColorScheme::Light => self.light,
            }),
    {
        match scheme {
            ColorScheme::Dark => self.dark,
            ColorScheme::Light => self.light,
        }
    }
}

impl Default for ThemeSet {
    fn default() -> (themes: ThemeSet)
        ensures
            theme_colors(themes.dark) == dark_colors(),
            theme_colors(themes.light) == light_colors(),
    {
        let dark_config = default_dark_colors();
        let light_config = default_light_colors();
        let ghost dark_texts = color_texts(dark_config);
        let ghost light_texts = color_texts(light_config);
        proof {
            lemma_dark_defaults(dark_config);
            lemma_light_defaults(light_config);
            lemma_all_colors(dark_texts, dark_colors(), 0);
            lemma_all_colors(light_texts, light_colors(), 0);
        }
        let dark = default_theme_from_colors(dark_config);
        let light = default_theme_from_colors(light_config);
        proof {
            assert forall|i: int| 0 <= i < 8 implies theme_colors(dark)[i] == dark_colors()[i] by {
                assert(text_readable(dark_texts[i]));
            }
            assert forall|i: int| 0 <= i < 8 implies theme_colors(light)[i]
                == light_colors()[i] by {
                assert(text_readable(light_texts[i]));
            }
            assert(theme_colors(dark) =~= dark_colors());
            assert(theme_colors(light) =~= light_colors());
        }
        ThemeSet { dark, light }
    }
}

/// The settings where nothing is configured.
pub open spec fn is_default(settings: AppSettings) -> bool {
    &&& theme_colors(settings.themes.dark) == dark_colors()
    &&& theme_colors(settings.themes.light) == light_colors()
    &&& settings.show_hotkey is None
    &&& settings.max_title_length == 64
    &&& settings.max_combined_title_length == 96
}

impl Default for AppSettings {
    fn default() -> (settings: AppSettings)
        ensures
            is_default(settings),
    {
        AppSettings {
            themes: ThemeSet::default(),
            show_hotkey: None,
            max_title_length: default_max_title_length(),
            max_combined_title_length: default_max_combined_title_length(),
        }
    }
}

impl Clone for AppSettings {
    fn clone(&self) -> (copy: AppSettings)
        ensures
            copy == *self,
    {
        AppSettings {
            themes: self.themes,
            show_hotkey: match &self.show_hotkey {
                Some(hotkey) => Some(hotkey.clone()),
                None => None,
            },
            max_title_length: self.max_title_length,
            max_combined_title_length: self.max_combined_title_length,
        }
    }
}

// ---------------------------------------------------------------------------
// Loading
// ---------------------------------------------------------------------------

/// The colors of a configuration can be taken apart, as far as they are read.
pub open spec fn config_readable(config: AppConfig) -> bool {
    let dark = color_texts(config.colors.dark);
    colors_readable(dark, 0) && (first_bad_color(dark, 0) is None ==> colors_readable(
        color_texts(config.colors.light),
        0,
    ))
}

/// The first color of a configuration that is none, the colors for the dark
/// color scheme first.
pub open spec fn bad_color(config: AppConfig) -> Option<ConfigError> {
    match first_bad_color(color_texts(config.colors.dark), 0) {
        Some((k, error)) => Some(
            ConfigError::Color { scheme: ColorScheme::Dark, field: field_at(k), error },
        ),
        None => match first_bad_color(color_texts(config.colors.light), 0) {
            Some((k, error)) => Some(
                ConfigError::Color { scheme: ColorScheme::Light, field: field_at(k), error },
            ),
            None => None,
        },
    }
}

/// Settings are those of a configuration.
pub open spec fn is_configured(settings: AppSettings, config: AppConfig) -> bool {
    &&& is_theme_of(settings.themes.dark, config.colors.dark)
    &&& is_theme_of(settings.themes.light, config.colors.light)
    &&& settings.show_hotkey == config.menu.show_hotkey
    &&& settings.max_title_length == config.menu.max_title_length
    &&& settings.max_combined_title_length == config.menu.max_combined_title_length
}

/// Whether the colors of one color scheme can be taken apart, as far as they
/// are read; and whether all are colors.
fn are_colors_readable(config: &ColorConfig) -> (answer: (bool, bool))
    ensures
        answer.0 == colors_readable(color_texts(*config), 0),
        answer.0 ==> answer.1 == (first_bad_color(color_texts(*config), 0) is None),
{
    let ghost texts = color_texts(*config);
    let mut k: usize = 0;
    while k < 8
        invariant
            k <= 8,
            texts == color_texts(*config),
            colors_readable(texts, 0) == colors_readable(texts, k as int),
            first_bad_color(texts, 0) == first_bad_color(texts, k as int),
        decreases 8 - k,
    {
        let (value, _) = field_text(config, k);
        proof {
            reveal(text_color);
            reveal(text_readable);
        }
        if !is_color_readable(value.as_str()) {
            return (false, false);
        }
        if parse_hex_color(value.as_str()).is_err() {
            return (true, false);
        }
        k += 1;
    }
    (true, true)
}

/// Whether the colors of a configuration can be taken apart, as far as they
/// are read.
pub fn is_config_readable(config: &AppConfig) -> (readable: bool)
    ensures
        readable == config_readable(*config),
{
    let (dark_readable, dark_good) = are_colors_readable(&config.colors.dark);
    if !dark_readable {
        false
    } else if !dark_good {
        true
    } else {
        are_colors_readable(&config.colors.light).0
    }
}

/// The settings that follow from what was found, or why there are none.
pub fn try_load_settings(source: ConfigSource) -> (settings: Result<AppSettings, ConfigError>)
    requires
        source matches ConfigSource::Parsed(config) ==> config_readable(config),
    ensures
        match source {
            ConfigSource::NoPath | ConfigSource::Missing => settings matches Ok(s) && is_default(s),
            ConfigSource::Unreadable => settings matches Err(ConfigError::Unreadable),
            ConfigSource::Malformed => settings matches Err(ConfigError::Malformed),
            ConfigSource::Parsed(config) => match bad_color(config) {
                Some(error) => settings matches Err(e) && e == error,
                None => settings matches Ok(s) && is_configured(s, config),
            },
        },
{
    match source {
        ConfigSource::NoPath => Ok(AppSettings::default()),
        ConfigSource::Missing => Ok(AppSettings::default()),
        ConfigSource::Unreadable => Err(ConfigError::Unreadable),
        ConfigSource::Malformed => Err(ConfigError::Malformed),
        ConfigSource::Parsed(config) => {
            let dark: Theme = match build_theme(&config.colors.dark, ColorScheme::Dark) {
                Ok(theme) => theme,
                Err(e) => return Err(e),
            };
            let light: Theme = match build_theme(&config.colors.light, ColorScheme::Light) {
                Ok(theme) => theme,
                Err(e) => return Err(e),
            };
            Ok(
                AppSettings {
                    themes: ThemeSet { dark, light },
                    show_hotkey: config.menu.show_hotkey,
                    max_title_length: config.menu.max_title_length,
                    max_combined_title_length: config.menu.max_combined_title_length,
                },
            )
        },
    }
}

/// The settings that follow from what was found. Where they cannot be loaded,
/// they are the default ones.
pub fn load_settings(source: ConfigSource) -> (settings: AppSettings)
    requires
        source matches ConfigSource::Parsed(config) ==> config_readable(config),
    ensures
        match source {
            ConfigSource::Parsed(config) if bad_color(config) is None => is_configured(
                settings,
                config,
            ),
            _ => is_default(settings),
        },
{
    match try_load_settings(source) {
        Ok(settings) => settings,
        Err(_) => AppSettings::default(),
    }
}

// ---------------------------------------------------------------------------
// Laws
// ---------------------------------------------------------------------------

/// A color without an alpha channel is opaque.
pub proof fn law_alpha_is_opaque_where_not_given(bytes: Seq<u8>)
    requires
        bytes.len() == 7,
        color_of(bytes) is Ok,
    ensures
        color_of(bytes)->Ok_0[3] == 0xFF,
{
}

/// The first color that is none is preceded by colors only.
proof fn lemma_first_bad_color(texts: Seq<Seq<char>>, from: int)
    requires
        0 <= from <= texts.len(),
    ensures
        match first_bad_color(texts, from) {
            Some((k, error)) => {
                &&& from <= k < texts.len()
                &&& text_color(texts[k]) == Err::<Seq<u8>, ColorError>(error)
                &&& forall|i: int| from <= i < k ==> text_color(#[trigger] texts[i]) is Ok
            },
            None => forall|i: int|
                from <= i < texts.len() ==> text_color(#[trigger] texts[i]) is Ok,
        },
    decreases texts.len() - from,
{
    if from < texts.len() {
        lemma_first_bad_color(texts, from + 1);
    }
}

/// A theme is built exactly where all eight colors are ones. Else the error names
/// the first that is none, in the order of the fields, by its place in the
/// configuration.
pub proof fn law_the_first_bad_color_is_named(config: ColorConfig, scheme: ColorScheme)
    ensures
        match first_bad_color(color_texts(config), 0) {
            Some((k, error)) => {
                &&& 0 <= k < 8
                &&& text_color(color_texts(config)[k]) == Err::<Seq<u8>, ColorError>(error)
                &&& forall|i: int|
                    0 <= i < k ==> text_color(#[trigger] color_texts(config)[i]) is Ok
                &&& message_of(ConfigError::Color { scheme, field: field_at(k), error })
                    == "parse "@ + scope_of(scheme) + "."@ + name_of(field_at(k)) + " as hex color"@
            },
            None => forall|i: int|
                0 <= i < 8 ==> text_color(#[trigger] color_texts(config)[i]) is Ok,
        },
{
    lemma_first_bad_color(color_texts(config), 0);
}

/// The configured settings are used exactly where every color of both color
/// schemes is one.
pub proof fn law_settings_need_every_color(config: AppConfig)
    ensures
        bad_color(config) is None <==> first_bad_color(color_texts(config.colors.dark), 0) is None
            && first_bad_color(color_texts(config.colors.light), 0) is None,
{
}

/// A byte is a hexadecimal digit of either case.
pub open spec fn is_hex(b: u8) -> bool {
    0x30 <= b <= 0x39 || 0x61 <= b <= 0x66 || 0x41 <= b <= 0x46
}

/// The number that a hexadecimal digit stands for.
pub open spec fn hex_number(b: u8) -> int {
    if b <= 0x39 {
        b - 48
    } else if b <= 0x46 {
        b - 55
    } else {
        b - 87
    }
}

/// A text of a hash and six or eight hexadecimal digits is a color: two digits for
/// each of red, green, blue and alpha, the greater one first.
pub proof fn law_colors_are_written_in_hexadecimal(bytes: Seq<u8>, c: int)
    requires
        bytes.len() == 7 || bytes.len() == 9,
        bytes[0] == 0x23,
        forall|i: int| 1 <= i < bytes.len() ==> is_hex(#[trigger] bytes[i]),
        0 <= c < 4,
    ensures
        color_of(bytes) is Ok,
        color_of(bytes)->Ok_0.len() == 4,
        bytes.len() == 7 && c == 3 ==> color_of(bytes)->Ok_0[3] == 255,
        bytes.len() == 9 || c < 3 ==> color_of(bytes)->Ok_0[c] == 16 * hex_number(bytes[1 + 2 * c])
            + hex_number(bytes[2 + 2 * c]),
{
    assert(is_hex(bytes[1]) && is_hex(bytes[2]) && is_hex(bytes[3]));
    assert(is_hex(bytes[4]) && is_hex(bytes[5]) && is_hex(bytes[6]));
    if bytes.len() == 9 {
        assert(is_hex(bytes[7]) && is_hex(bytes[8]));
    }
}

/// Two bytes are a channel: two hexadecimal digits, or a plus sign and one.
pub open spec fn is_channel(bytes: Seq<u8>, c: int) -> bool {
    is_hex(bytes[2 + 2 * c]) && (is_hex(bytes[1 + 2 * c]) || bytes[1 + 2 * c] == 0x2b)
}

/// A text is no color where it does not start with a hash, where it has not the
/// length of three or four channels, or where a channel is none; the first of these
/// that holds is the reason.
pub proof fn law_bad_colors_are_rejected(bytes: Seq<u8>)
    ensures
        ({
            let hash = bytes.len() > 0 && bytes[0] == 0x23;
            let length = bytes.len() == 7 || bytes.len() == 9;
            let color = color_of(bytes);
            if !hash {
                color == Err::<Seq<u8>, ColorError>(ColorError::MissingHash)
            } else if !length {
                color == Err::<Seq<u8>, ColorError>(ColorError::BadLength)
            } else if !is_channel(bytes, 0) {
                color == Err::<Seq<u8>, ColorError>(ColorError::Channel(Channel::Red))
            } else if !is_channel(bytes, 1) {
                color == Err::<Seq<u8>, ColorError>(ColorError::Channel(Channel::Green))
            } else if !is_channel(bytes, 2) {
                color == Err::<Seq<u8>, ColorError>(ColorError::Channel(Channel::Blue))
            } else if bytes.len() == 9 && !is_channel(bytes, 3) {
                color == Err::<Seq<u8>, ColorError>(ColorError::Channel(Channel::Alpha))
            } else {
                color is Ok
            }
        }),
{
}

/// Every color of a theme is the one that the text of the same name stands for.
pub proof fn law_themes_have_the_configured_colors(theme: Theme, config: ColorConfig)
    requires
        is_theme_of(theme, config),
    ensures
        color_of(encode_utf8(config.focused@)) == Ok::<Seq<u8>, ColorError>(theme.focused@),
        color_of(encode_utf8(config.non_empty_1@)) == Ok::<Seq<u8>, ColorError>(
            theme.non_empty_1@,
        ),
        color_of(encode_utf8(config.non_empty_2@)) == Ok::<Seq<u8>, ColorError>(
            theme.non_empty_2@,
        ),
        color_of(encode_utf8(config.non_empty_3_plus@)) == Ok::<Seq<u8>, ColorError>(
            theme.non_empty_3_plus@,
        ),
        color_of(encode_utf8(config.full_screen_border@)) == Ok::<Seq<u8>, ColorError>(
            theme.full_screen_border@,
        ),
        color_of(encode_utf8(config.active_monitor_border@)) == Ok::<Seq<u8>, ColorError>(
            theme.active_monitor_border@,
        ),
        color_of(encode_utf8(config.inactive_monitor_border@)) == Ok::<Seq<u8>, ColorError>(
            theme.inactive_monitor_border@,
        ),
        color_of(encode_utf8(config.empty@)) == Ok::<Seq<u8>, ColorError>(theme.empty@),
{
    reveal(text_color);
    let texts = color_texts(config);
    assert(text_color(texts[0]) is Ok && text_color(texts[1]) is Ok && text_color(texts[2]) is Ok);
    assert(text_color(texts[3]) is Ok && text_color(texts[4]) is Ok && text_color(texts[5]) is Ok);
    assert(text_color(texts[6]) is Ok && text_color(texts[7]) is Ok);
}

/// The text of a color in a configuration.
pub open spec fn text_of(config: ColorConfig, field: ColorField) -> Seq<char> {
    match field {
        ColorField::Focused => config.focused@,
        ColorField::NonEmpty1 => config.non_empty_1@,
        ColorField::NonEmpty2 => config.non_empty_2@,
        ColorField::NonEmpty3Plus => config.non_empty_3_plus@,
        ColorField::FullScreenBorder => config.full_screen_border@,
        ColorField::ActiveMonitorBorder => config.active_monitor_border@,
        ColorField::InactiveMonitorBorder => config.inactive_monitor_border@,
        ColorField::Empty => config.empty@,
    }
}

/// A configuration is rejected exactly where one of its colors is none. The error is
/// about a color of the scheme that it names, under the name that it names, and says
/// why that is none. It is about a light color only where all dark ones are colors.
pub proof fn law_rejected_colors_are_none(config: AppConfig, field: ColorField)
    ensures
        match bad_color(config) {
            Some(ConfigError::Color { scheme, field: bad, error }) => {
                let colors = match scheme {
                    ColorScheme::Dark => config.colors.dark,
                    ColorScheme::Light => config.colors.light,
                };
                &&& color_of(encode_utf8(text_of(colors, bad))) == Err::<Seq<u8>, ColorError>(
                    error,
                )
                &&& scheme == ColorScheme::Light ==> color_of(
                    encode_utf8(text_of(config.colors.dark, field)),
                ) is Ok
            },
            Some(_) => false,
            None => {
                &&& color_of(encode_utf8(text_of(config.colors.dark, field))) is Ok
                &&& color_of(encode_utf8(text_of(config.colors.light, field))) is Ok
            },
        },
{
    lemma_bad_color_of_theme(config.colors.dark, field);
    lemma_bad_color_of_theme(config.colors.light, field);
    lemma_text_color(text_of(config.colors.dark, field));
    lemma_text_color(text_of(config.colors.light, field));
    if let Some(ConfigError::Color { scheme, field: bad, .. }) = bad_color(config) {
        lemma_text_color(text_of(config.colors.dark, bad));
        lemma_text_color(text_of(config.colors.light, bad));
    }
}

proof fn lemma_text_color(value: Seq<char>)
    ensures
        text_color(value) == color_of(encode_utf8(value)),
{
    reveal(text_color);
}

proof fn lemma_bad_color_of_theme(config: ColorConfig, field: ColorField)
    ensures
        match first_bad_color(color_texts(config), 0) {
            Some((k, error)) => text_color(text_of(config, field_at(k))) == Err::<
                Seq<u8>,
                ColorError,
            >(error),
            None => text_color(text_of(config, field)) is Ok,
        },
{
    let texts = color_texts(config);
    lemma_first_bad_color(texts, 0);
    match first_bad_color(texts, 0) {
        Some((k, error)) => {
            assert(text_of(config, field_at(k)) == texts[k]);
        },
        None => {
            let k = lemma_field_has_a_place(config, field);
            assert(text_color(texts[k]) is Ok);
        },
    }
}

proof fn lemma_field_has_a_place(config: ColorConfig, field: ColorField) -> (k: int)
    ensures
        0 <= k < 8,
        color_texts(config)[k] == text_of(config, field),
{
    match field {
        ColorField::Focused => 0,
        ColorField::NonEmpty1 => 1,
        ColorField::NonEmpty2 => 2,
        ColorField::NonEmpty3Plus => 3,
        ColorField::FullScreenBorder => 4,
        ColorField::ActiveMonitorBorder => 5,
        ColorField::InactiveMonitorBorder => 6,
        ColorField::Empty => 7,
    }
}

/// The configured settings have the dark colors for the dark scheme, the light ones
/// for the light scheme, and the menu settings as they are.
pub proof fn law_settings_are_the_configured_ones(settings: AppSettings, config: AppConfig)
    requires
        is_configured(settings, config),
    ensures
        color_of(encode_utf8(config.colors.dark.focused@)) == Ok::<Seq<u8>, ColorError>(
            settings.themes.dark.focused@,
        ),
        color_of(encode_utf8(config.colors.light.focused@)) == Ok::<Seq<u8>, ColorError>(
            settings.themes.light.focused@,
        ),
        is_theme_of(settings.themes.dark, config.colors.dark),
        is_theme_of(settings.themes.light, config.colors.light),
        settings.show_hotkey == config.menu.show_hotkey,
        settings.max_title_length == config.menu.max_title_length,
        settings.max_combined_title_length == config.menu.max_combined_title_length,
{
    law_themes_have_the_configured_colors(settings.themes.dark, config.colors.dark);
    law_themes_have_the_configured_colors(settings.themes.light, config.colors.light);
}

} // verus!
