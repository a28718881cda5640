//! `[decorations]`, `[output.outline]`, `[effects]` and `[backend]` settings.
use vstd::prelude::*;

use crate::config::colors;
use crate::config::colors::{resolve_color, Rgba};
use crate::config::numbers;
use crate::config::numbers::{Number, NumberOf, Real};
use crate::config::warnings;
use crate::config::warnings::{clamp_warn, collect_warn, non_negative, Severity, Warnings};
use crate::text;
use crate::text::{join3, text_eq, to_lowercase, trim};

verus! {

/// Who draws a window's frame, and how much of it.
#[derive(Clone, Copy, Debug, PartialEq, Eq, Structural)]
pub enum DecorationMode {
    Client,
    Server,
    Minimal,
    /// No frame at all (`none`).
    Bare,
}

#[derive(Clone, Copy, Debug, PartialEq, Eq, Structural)]
pub enum FontWeight {
    Thin,
    ExtraLight,
    Light,
    Normal,
    Medium,
    SemiBold,
    Bold,
    ExtraBold,
    Black,
}

#[derive(Clone, Copy, Debug, PartialEq, Eq, Structural)]
pub enum TitleAlign {
    Left,
    Center,
}

/// Processed `[decorations]` settings.
#[derive(Debug, PartialEq, Eq)]
pub struct DecorationConfigOf<S> {
    pub bg_color: Rgba,
    pub fg_color: Rgba,
    pub corner_radius: i32,
    pub default_mode: DecorationMode,
    pub border_width: i32,
    pub border_color: Rgba,
    pub border_color_focused: Rgba,
    pub shadow: bool,
    pub title_bar_height: i32,
    pub font: S,
    pub font_size: u32,
    pub font_weight: FontWeight,
    pub title_align: TitleAlign,
}

pub type DecorationConfig = DecorationConfigOf<String>;

impl View for DecorationConfigOf<String> {
    type V = DecorationConfigOf<Seq<char>>;

    open spec fn view(&self) -> DecorationConfigOf<Seq<char>> {
        DecorationConfigOf {
            bg_color: self.bg_color,
            fg_color: self.fg_color,
            corner_radius: self.corner_radius,
            default_mode: self.default_mode,
            border_width: self.border_width,
            border_color: self.border_color,
            border_color_focused: self.border_color_focused,
            shadow: self.shadow,
            title_bar_height: self.title_bar_height,
            font: self.font@,
            font_size: self.font_size,
            font_weight: self.font_weight,
            title_align: self.title_align,
        }
    }
}

/// The `[decorations]` settings of an empty file.
pub open spec fn default_decorations() -> DecorationConfigOf<Seq<char>> {
    DecorationConfigOf {
        bg_color: Rgba { r: 0x30, g: 0x30, b: 0x30, a: 0xff },
        fg_color: Rgba { r: 0xff, g: 0xff, b: 0xff, a: 0xff },
        corner_radius: 10,
        default_mode: DecorationMode::Client,
        border_width: 0,
        border_color: Rgba { r: 0x44, g: 0x44, b: 0x44, a: 0xff },
        border_color_focused: Rgba { r: 0x88, g: 0x88, b: 0x88, a: 0xff },
        shadow: true,
        title_bar_height: 25,
        font: "sans-serif"@,
        font_size: 11,
        font_weight: FontWeight::Medium,
        title_align: TitleAlign::Center,
    }
}

impl Default for DecorationConfigOf<String> {
    fn default() -> (r: Self)
        ensures
            r@ == default_decorations(),
    {
        DecorationConfig {
            bg_color: Rgba { r: 0x30, g: 0x30, b: 0x30, a: 0xff },
            fg_color: Rgba { r: 0xff, g: 0xff, b: 0xff, a: 0xff },
            corner_radius: 10,
            default_mode: DecorationMode::Client,
            border_width: 0,
            border_color: Rgba { r: 0x44, g: 0x44, b: 0x44, a: 0xff },
            border_color_focused: Rgba { r: 0x88, g: 0x88, b: 0x88, a: 0xff },
            shadow: true,
            title_bar_height: 25,
            font: "sans-serif".to_owned(),
            font_size: 11,
            font_weight: FontWeight::Medium,
            title_align: TitleAlign::Center,
        }
    }
}

/// `[decorations]` as the file holds it.
#[derive(Debug, Default, PartialEq, Eq)]
pub struct DecorationFileConfig {
    pub bg_color: Option<String>,
    pub fg_color: Option<String>,
    pub corner_radius: Option<i32>,
    pub default_mode: Option<String>,
    pub border_width: Option<i32>,
    pub border_color: Option<String>,
    pub border_color_focused: Option<String>,
    pub shadow: Option<bool>,
    pub title_bar_height: Option<i32>,
    pub font: Option<String>,
    pub font_size: Option<u32>,
    pub font_weight: Option<String>,
    pub title_align: Option<String>,
}

/// Every color text of the section can be read.
pub open spec fn decorations_readable(raw: DecorationFileConfig) -> bool {
    &&& colors::opt_readable(raw.bg_color)
    &&& colors::opt_readable(raw.fg_color)
    &&& colors::opt_readable(raw.border_color)
    &&& colors::opt_readable(raw.border_color_focused)
}

pub open spec fn server_default_message() -> Seq<char> {
    "config: default_mode = \"server\" is not supported globally (many toolkits ignore xdg-decoration and draw double titlebars). Use it in [[window_rules]] for specific apps instead. Falling back to \"client\"."@
}

/// The default mode that a text names. `server` is reserved for window rules:
/// as a global default, toolkits that ignore xdg-decoration would draw a
/// second title bar.
pub open spec fn default_mode_of(o: Option<String>) -> DecorationMode {
    match o {
        Some(s) => if s@ == "client"@ {
            DecorationMode::Client
        } else if s@ == "minimal"@ {
            DecorationMode::Minimal
        } else if s@ == "none"@ {
            DecorationMode::Bare
        } else {
            DecorationMode::Client
        },
        None => DecorationMode::Client,
    }
}

pub open spec fn default_mode_warning(o: Option<String>) -> Seq<(Severity, Seq<char>)> {
    match o {
        Some(s) => if s@ == "client"@ || s@ == "minimal"@ || s@ == "none"@ {
            warnings::silent()
        } else if s@ == "server"@ {
            warnings::rejected(server_default_message())
        } else {
            warnings::rejected("config: unknown default_mode '"@ + s@ + "', using client"@)
        },
        None => warnings::silent(),
    }
}

/// The font weight that a lowercase word names.
pub open spec fn weight_word(w: Seq<char>) -> Option<FontWeight> {
    if w == "thin"@ || w == "hairline"@ {
        Some(FontWeight::Thin)
    } else if w == "extralight"@ || w == "extra-light"@ || w == "ultralight"@ {
        Some(FontWeight::ExtraLight)
    } else if w == "light"@ {
        Some(FontWeight::Light)
    } else if w == "normal"@ || w == "regular"@ {
        Some(FontWeight::Normal)
    } else if w == "medium"@ {
        Some(FontWeight::Medium)
    } else if w == "semibold"@ || w == "semi-bold"@ || w == "demibold"@ {
        Some(FontWeight::SemiBold)
    } else if w == "bold"@ {
        Some(FontWeight::Bold)
    } else if w == "extrabold"@ || w == "extra-bold"@ || w == "ultrabold"@ {
        Some(FontWeight::ExtraBold)
    } else if w == "black"@ || w == "heavy"@ {
        Some(FontWeight::Black)
    } else {
        None
    }
}

pub open spec fn font_weight_of(o: Option<String>) -> FontWeight {
    match o {
        Some(s) => match weight_word(text::lowercase(text::trimmed(s@))) {
            Some(w) => w,
            None => FontWeight::Medium,
        },
        None => FontWeight::Medium,
    }
}

pub open spec fn font_weight_warning(o: Option<String>) -> Seq<(Severity, Seq<char>)> {
    match o {
        Some(s) => if weight_word(text::lowercase(text::trimmed(s@))) is None {
            warnings::rejected(
                "config: unknown font_weight '"@ + text::lowercase(text::trimmed(s@))
                    + "', using medium"@,
            )
        } else {
            warnings::silent()
        },
        None => warnings::silent(),
    }
}

pub open spec fn title_align_of(o: Option<String>) -> TitleAlign {
    match o {
        Some(s) => if s@ == "left"@ {
            TitleAlign::Left
        } else {
            TitleAlign::Center
        },
        None => TitleAlign::Center,
    }
}

pub open spec fn title_align_warning(o: Option<String>) -> Seq<(Severity, Seq<char>)> {
    match o {
        Some(s) => if s@ == "left"@ || s@ == "center"@ {
            warnings::silent()
        } else {
            warnings::rejected("config: unknown title_align '"@ + s@ + "', using center"@)
        },
        None => warnings::silent(),
    }
}

/// An optional value, or the default.
pub open spec fn or_else<T>(o: Option<T>, default: T) -> T {
    match o {
        Some(v) => v,
        None => default,
    }
}

/// The settings that a `[decorations]` section stands for.
pub open spec fn decorations_of(raw: DecorationFileConfig) -> DecorationConfigOf<Seq<char>> {
    let d = default_decorations();
    DecorationConfigOf {
        bg_color: colors::color_or(raw.bg_color, d.bg_color),
        fg_color: colors::color_or(raw.fg_color, d.fg_color),
        corner_radius: warnings::clamp_of(or_else(raw.corner_radius, d.corner_radius), 0, i32::MAX),
        default_mode: default_mode_of(raw.default_mode),
        border_width: warnings::clamp_of(or_else(raw.border_width, d.border_width), 0, i32::MAX),
        border_color: colors::color_or(raw.border_color, d.border_color),
        border_color_focused: colors::color_or(raw.border_color_focused, d.border_color_focused),
        shadow: or_else(raw.shadow, d.shadow),
        title_bar_height: warnings::clamp_of(
            or_else(raw.title_bar_height, d.title_bar_height),
            1,
            i32::MAX,
        ),
        font: match raw.font {
            Some(s) => s@,
            None => d.font,
        },
        font_size: warnings::clamp_of(or_else(raw.font_size, d.font_size), 1, u32::MAX),
        font_weight: font_weight_of(raw.font_weight),
        title_align: title_align_of(raw.title_align),
    }
}

/// The warnings `w`, followed by those of a `[decorations]` section.
pub open spec fn decoration_warnings(
    w: Seq<(Severity, Seq<char>)>,
    raw: DecorationFileConfig,
) -> Seq<(Severity, Seq<char>)> {
    let d = default_decorations();
    w + default_mode_warning(raw.default_mode) + font_weight_warning(raw.font_weight)
        + title_align_warning(raw.title_align) + colors::named_color_warning(
        raw.bg_color,
        "bg_color"@,
    ) + colors::named_color_warning(raw.fg_color, "fg_color"@) + warnings::clamp_warning(
        or_else(raw.corner_radius, d.corner_radius),
        0,
        i32::MAX,
        "decorations.corner_radius"@,
    ) + warnings::clamp_warning(
        or_else(raw.border_width, d.border_width),
        0,
        i32::MAX,
        "decorations.border_width"@,
    ) + colors::named_color_warning(raw.border_color, "border_color"@)
        + colors::named_color_warning(raw.border_color_focused, "border_color_focused"@)
        + warnings::clamp_warning(
        or_else(raw.title_bar_height, d.title_bar_height),
        1,
        i32::MAX,
        "decorations.title_bar_height"@,
    ) + warnings::clamp_warning(
        or_else(raw.font_size, d.font_size),
        1,
        u32::MAX,
        "decorations.font_size"@,
    )
}

fn parse_default_mode(o: &Option<String>, errors: &mut Warnings) -> (r: DecorationMode)
    ensures
        r == default_mode_of(*o),
        warnings::warned(final(errors)@) == warnings::warned(old(errors)@) + default_mode_warning(
            *o,
        ),
{
    proof {
        warnings::lemma_silent(warnings::warned(errors@));
    }
    match o {
        None => DecorationMode::Client,
        Some(s) => {
            if text_eq(s.as_str(), "client") {
                DecorationMode::Client
            } else if text_eq(s.as_str(), "minimal") {
                DecorationMode::Minimal
            } else if text_eq(s.as_str(), "none") {
                DecorationMode::Bare
            } else if text_eq(s.as_str(), "server") {
                collect_warn(
                    errors,
                    "config: default_mode = \"server\" is not supported globally (many toolkits ignore xdg-decoration and draw double titlebars). Use it in [[window_rules]] for specific apps instead. Falling back to \"client\".".to_owned(),
                );
                DecorationMode::Client
            } else {
                collect_warn(
                    errors,
                    join3("config: unknown default_mode '", s.as_str(), "', using client"),
                );
                DecorationMode::Client
            }
        },
    }
}

fn parse_weight_word(w: &str) -> (r: Option<FontWeight>)
    ensures
        r == weight_word(w@),
{
    if text_eq(w, "thin") || text_eq(w, "hairline") {
        Some(FontWeight::Thin)
    } else if text_eq(w, "extralight") || text_eq(w, "extra-light") || text_eq(w, "ultralight") {
        Some(FontWeight::ExtraLight)
    } else if text_eq(w, "light") {
        Some(FontWeight::Light)
    } else if text_eq(w, "normal") || text_eq(w, "regular") {
        Some(FontWeight::Normal)
    } else if text_eq(w, "medium") {
        Some(FontWeight::Medium)
    } else if text_eq(w, "semibold") || text_eq(w, "semi-bold") || text_eq(w, "demibold") {
        Some(FontWeight::SemiBold)
    } else if text_eq(w, "bold") {
        Some(FontWeight::Bold)
    } else if text_eq(w, "extrabold") || text_eq(w, "extra-bold") || text_eq(w, "ultrabold") {
        Some(FontWeight::ExtraBold)
    } else if text_eq(w, "black") || text_eq(w, "heavy") {
        Some(FontWeight::Black)
    } else {
        None
    }
}

fn parse_font_weight(o: &Option<String>, errors: &mut Warnings) -> (r: FontWeight)
    ensures
        r == font_weight_of(*o),
        warnings::warned(final(errors)@) == warnings::warned(old(errors)@) + font_weight_warning(
            *o,
        ),
{
    proof {
        warnings::lemma_silent(warnings::warned(errors@));
    }
    match o {
        None => FontWeight::Medium,
        Some(s) => {
            let word: String = to_lowercase(trim(s.as_str()));
            match parse_weight_word(word.as_str()) {
                Some(w) => w,
                None => {
                    collect_warn(
                        errors,
                        join3("config: unknown font_weight '", word.as_str(), "', using medium"),
                    );
                    FontWeight::Medium
                },
            }
        },
    }
}

fn parse_title_align(o: &Option<String>, errors: &mut Warnings) -> (r: TitleAlign)
    ensures
        r == title_align_of(*o),
        warnings::warned(final(errors)@) == warnings::warned(old(errors)@) + title_align_warning(
            *o,
        ),
{
    proof {
        warnings::lemma_silent(warnings::warned(errors@));
    }
    match o {
        None => TitleAlign::Center,
        Some(s) => {
            if text_eq(s.as_str(), "left") {
                TitleAlign::Left
            } else if text_eq(s.as_str(), "center") {
                TitleAlign::Center
            } else {
                collect_warn(
                    errors,
                    join3("config: unknown title_align '", s.as_str(), "', using center"),
                );
                TitleAlign::Center
            }
        },
    }
}

/// Process a `[decorations]` section.
pub fn parse_decoration_config(raw: &DecorationFileConfig, errors: &mut Warnings) -> (r:
    DecorationConfig)
    requires
        decorations_readable(*raw),
    ensures
        r@ == decorations_of(*raw),
        warnings::warned(final(errors)@) == decoration_warnings(
            warnings::warned(old(errors)@),
            *raw,
        ),
{
    let d: DecorationConfig = DecorationConfig::default();
    let default_mode: DecorationMode = parse_default_mode(&raw.default_mode, errors);
    let font_weight: FontWeight = parse_font_weight(&raw.font_weight, errors);
    let title_align: TitleAlign = parse_title_align(&raw.title_align, errors);
    let bg_color: Rgba = resolve_color(&raw.bg_color, d.bg_color, "bg_color", errors);
    let fg_color: Rgba = resolve_color(&raw.fg_color, d.fg_color, "fg_color", errors);
    let corner_radius: i32 = clamp_warn(
        raw.corner_radius.unwrap_or(d.corner_radius),
        0,
        i32::MAX,
        "decorations.corner_radius",
        errors,
    );
    let border_width: i32 = clamp_warn(
        raw.border_width.unwrap_or(d.border_width),
        0,
        i32::MAX,
        "decorations.border_width",
        errors,
    );
    let border_color: Rgba = resolve_color(
        &raw.border_color,
        d.border_color,
        "border_color",
        errors,
    );
    let border_color_focused: Rgba = resolve_color(
        &raw.border_color_focused,
        d.border_color_focused,
        "border_color_focused",
        errors,
    );
    let title_bar_height: i32 = clamp_warn(
        raw.title_bar_height.unwrap_or(d.title_bar_height),
        1,
        i32::MAX,
        "decorations.title_bar_height",
        errors,
    );
    let font: String = match &raw.font {
        Some(s) => s.clone(),
        None => d.font,
    };
    let font_size: u32 = clamp_warn(
        raw.font_size.unwrap_or(d.font_size),
        1,
        u32::MAX,
        "decorations.font_size",
        errors,
    );
    DecorationConfig {
        bg_color,
        fg_color,
        corner_radius,
        default_mode,
        border_width,
        border_color,
        border_color_focused,
        shadow: raw.shadow.unwrap_or(d.shadow),
        title_bar_height,
        font,
        font_size,
        font_weight,
        title_align,
    }
}

// ── Output outline ───────────────────────────────────────────────────

/// `[output.outline]` as the file holds it.
#[derive(Debug, Default, PartialEq, Eq)]
pub struct OutputOutlineConfig {
    pub color: Option<String>,
    pub thickness: Option<i32>,
    pub opacity: Option<Number>,
}

/// Processed `[output.outline]` settings.
#[derive(Clone, Copy, Debug, PartialEq, Eq, Structural)]
pub struct OutputOutlineSettings {
    pub color: Rgba,
    pub thickness: i32,
    pub opacity: Real,
}

/// 0.5
pub const HALF: u64 = 0x3fe0_0000_0000_0000;

/// 1.0
pub const ONE: u64 = 0x3ff0_0000_0000_0000;

/// The outline of an empty file.
pub open spec fn default_outline() -> OutputOutlineSettings {
    OutputOutlineSettings {
        color: Rgba { r: 0xff, g: 0xff, b: 0xff, a: 0xff },
        thickness: 1,
        opacity: Real { bits: HALF },
    }
}

/// The number with the given bits and text.
pub open spec fn number(bits: u64, shown: Seq<char>) -> NumberOf<Seq<char>> {
    NumberOf { value: Real { bits }, text: shown }
}

/// An optional number, or the default.
pub open spec fn number_or(o: Option<Number>, default: NumberOf<Seq<char>>) -> NumberOf<Seq<char>> {
    match o {
        Some(n) => n@,
        None => default,
    }
}

/// A number clamped between two others.
pub open spec fn clamped(
    v: NumberOf<Seq<char>>,
    min: NumberOf<Seq<char>>,
    max: NumberOf<Seq<char>>,
) -> Real {
    if numbers::below(numbers::real_rank(v.value), numbers::real_rank(min.value)) {
        min.value
    } else if numbers::above(numbers::real_rank(v.value), numbers::real_rank(max.value)) {
        max.value
    } else {
        v.value
    }
}

/// The warning that clamping a number gives.
pub open spec fn clamped_warning(
    v: NumberOf<Seq<char>>,
    min: NumberOf<Seq<char>>,
    max: NumberOf<Seq<char>>,
    field: Seq<char>,
) -> Seq<(Severity, Seq<char>)> {
    if numbers::below(numbers::real_rank(v.value), numbers::real_rank(min.value)) {
        warnings::corrected(
            "config: "@ + field + " "@ + v.text + " below minimum "@ + min.text + ", using "@
                + min.text,
        )
    } else if numbers::above(numbers::real_rank(v.value), numbers::real_rank(max.value)) {
        warnings::corrected(
            "config: "@ + field + " "@ + v.text + " above maximum "@ + max.text + ", using "@
                + max.text,
        )
    } else {
        warnings::silent()
    }
}

/// A number, or zero where it is negative or not a number.
pub open spec fn floored(v: NumberOf<Seq<char>>) -> Real {
    if numbers::below(numbers::real_rank(v.value), Some(0int)) {
        Real { bits: 0 }
    } else {
        v.value
    }
}

/// The warning that flooring a number at zero gives.
pub open spec fn floored_warning(v: NumberOf<Seq<char>>, field: Seq<char>) -> Seq<
    (Severity, Seq<char>),
> {
    if numbers::below(numbers::real_rank(v.value), Some(0int)) {
        warnings::corrected("config: "@ + field + " "@ + v.text + " is negative, using 0"@)
    } else {
        warnings::silent()
    }
}

/// An optional number, or the default with the given bits and text.
pub fn take_number(o: &Option<Number>, bits: u64, shown: &str) -> (r: Number)
    ensures
        r@ == number_or(*o, number(bits, shown@)),
{
    match o {
        Some(n) => n.duplicate(),
        None => Number::new(bits, shown),
    }
}

/// Clamp a number between 0 and 1.
pub fn clamp_unit(v: Number, field: &str, errors: &mut Warnings) -> (r: Real)
    ensures
        r == clamped(v@, number(0, "0"@), number(ONE, "1"@)),
        warnings::warned(final(errors)@) == warnings::warned(old(errors)@) + clamped_warning(
            v@,
            number(0, "0"@),
            number(ONE, "1"@),
            field@,
        ),
{
    clamp_warn(v, Number::new(0, "0"), Number::new(ONE, "1"), field, errors).value
}

/// Floor a number at zero.
pub fn floor_number(v: Number, field: &str, errors: &mut Warnings) -> (r: Real)
    ensures
        r == floored(v@),
        warnings::warned(final(errors)@) == warnings::warned(old(errors)@) + floored_warning(
            v@,
            field@,
        ),
{
    non_negative(v, field, errors).value
}

pub open spec fn outline_of(raw: OutputOutlineConfig) -> OutputOutlineSettings {
    let d = default_outline();
    OutputOutlineSettings {
        color: colors::color_or(raw.color, d.color),
        thickness: warnings::clamp_of(or_else(raw.thickness, d.thickness), 0, i32::MAX),
        opacity: clamped(
            number_or(raw.opacity, number(HALF, "0.5"@)),
            number(0, "0"@),
            number(ONE, "1"@),
        ),
    }
}

/// The warnings `w`, followed by those of an `[output.outline]` section.
pub open spec fn outline_warnings(
    w: Seq<(Severity, Seq<char>)>,
    raw: OutputOutlineConfig,
) -> Seq<(Severity, Seq<char>)> {
    let d = default_outline();
    w + colors::color_warning(
        raw.color,
        "config: invalid output outline color '"@,
        "', using default"@,
    ) + warnings::clamp_warning(
        or_else(raw.thickness, d.thickness),
        0,
        i32::MAX,
        "output.outline.thickness"@,
    ) + clamped_warning(
        number_or(raw.opacity, number(HALF, "0.5"@)),
        number(0, "0"@),
        number(ONE, "1"@),
        "output.outline.opacity"@,
    )
}

/// Process an `[output.outline]` section.
pub fn parse_output_outline(raw: &OutputOutlineConfig, errors: &mut Warnings) -> (r:
    OutputOutlineSettings)
    requires
        colors::opt_readable(raw.color),
    ensures
        r == outline_of(*raw),
        warnings::warned(final(errors)@) == outline_warnings(
            warnings::warned(old(errors)@),
            *raw,
        ),
{
    let fallback: Rgba = Rgba { r: 0xff, g: 0xff, b: 0xff, a: 0xff };
    let color: Rgba = match &raw.color {
        None => {
            proof {
                warnings::lemma_silent(warnings::warned(errors@));
            }
            fallback
        },
        Some(s) => match colors::parse_color(s.as_str()) {
            Some(c) => {
                proof {
                    warnings::lemma_silent(warnings::warned(errors@));
                }
                c
            },
            None => {
                collect_warn(
                    errors,
                    join3("config: invalid output outline color '", s.as_str(), "', using default"),
                );
                fallback
            },
        },
    };
    let thickness: i32 = clamp_warn(
        raw.thickness.unwrap_or(1),
        0,
        i32::MAX,
        "output.outline.thickness",
        errors,
    );
    let opacity: Real = clamp_unit(
        take_number(&raw.opacity, HALF, "0.5"),
        "output.outline.opacity",
        errors,
    );
    OutputOutlineSettings { color, thickness, opacity }
}

// ── Effects and backend ──────────────────────────────────────────────

/// `[effects]` as the file holds it.
#[derive(Debug, Default, PartialEq, Eq)]
pub struct EffectsFileConfig {
    pub blur_radius: Option<u32>,
    pub blur_strength: Option<Number>,
    pub animate_blur: Option<bool>,
}

/// Processed `[effects]` settings.
#[derive(Clone, Copy, Debug, PartialEq, Eq, Structural)]
pub struct EffectsConfig {
    pub blur_radius: u32,
    pub blur_strength: Real,
    pub animate_blur: bool,
}

/// 1.1
pub const ONE_TENTH_MORE: u64 = 0x3ff1_9999_9999_999a;

pub open spec fn effects_of(raw: EffectsFileConfig) -> EffectsConfig {
    EffectsConfig {
        blur_radius: or_else(raw.blur_radius, 2),
        blur_strength: floored(number_or(raw.blur_strength, number(ONE_TENTH_MORE, "1.1"@))),
        animate_blur: or_else(raw.animate_blur, false),
    }
}

pub open spec fn effects_warnings(raw: EffectsFileConfig) -> Seq<(Severity, Seq<char>)> {
    floored_warning(
        number_or(raw.blur_strength, number(ONE_TENTH_MORE, "1.1"@)),
        "effects.blur_strength"@,
    )
}

/// Process an `[effects]` section.
pub fn parse_effects_config(raw: &EffectsFileConfig, errors: &mut Warnings) -> (r: EffectsConfig)
    ensures
        r == effects_of(*raw),
        warnings::warned(final(errors)@) == warnings::warned(old(errors)@) + effects_warnings(*raw),
{
    let blur_strength: Real = floor_number(
        take_number(&raw.blur_strength, ONE_TENTH_MORE, "1.1"),
        "effects.blur_strength",
        errors,
    );
    EffectsConfig {
        blur_radius: raw.blur_radius.unwrap_or(2),
        blur_strength,
        animate_blur: raw.animate_blur.unwrap_or(false),
    }
}

/// `[backend]` as the file holds it.
#[derive(Debug, Default, PartialEq, Eq)]
pub struct BackendFileConfig {
    pub wait_for_frame_completion: Option<bool>,
    pub disable_direct_scanout: Option<bool>,
    pub disable_hardware_cursor: Option<bool>,
    pub max_capture_fps: Option<u32>,
}

/// Processed `[backend]` settings.
#[derive(Clone, Copy, Debug, PartialEq, Eq, Structural)]
pub struct BackendConfig {
    pub wait_for_frame_completion: bool,
    pub disable_direct_scanout: bool,
    pub disable_hardware_cursor: bool,
    pub max_capture_fps: u32,
}

pub open spec fn backend_of(raw: BackendFileConfig) -> BackendConfig {
    BackendConfig {
        wait_for_frame_completion: or_else(raw.wait_for_frame_completion, false),
        disable_direct_scanout: or_else(raw.disable_direct_scanout, false),
        disable_hardware_cursor: or_else(raw.disable_hardware_cursor, false),
        max_capture_fps: or_else(raw.max_capture_fps, 0),
    }
}

/// Process a `[backend]` section.
pub fn parse_backend_config(raw: &BackendFileConfig) -> (r: BackendConfig)
    ensures
        r == backend_of(*raw),
{
    BackendConfig {
        wait_for_frame_completion: raw.wait_for_frame_completion.unwrap_or(false),
        disable_direct_scanout: raw.disable_direct_scanout.unwrap_or(false),
        disable_hardware_cursor: raw.disable_hardware_cursor.unwrap_or(false),
        max_capture_fps: raw.max_capture_fps.unwrap_or(0),
    }
}

} // verus!
