//! `[[outputs]]` entries: scale, transform, position and mode of a display.
use vstd::prelude::*;

use crate::config::numbers;
use crate::config::numbers::{Number, Real};
use crate::config::types;
use crate::text;
use crate::text::{cut_char, join3, parse_i32, parse_unsigned, text_eq};

verus! {

/// How an output's picture is turned and mirrored.
#[derive(Clone, Copy, Debug, PartialEq, Eq, Structural)]
pub enum Transform {
    Normal,
    Rotated90,
    Rotated180,
    Rotated270,
    Flipped,
    Flipped90,
    Flipped180,
    Flipped270,
}

#[derive(Clone, Copy, Debug, PartialEq, Eq, Structural)]
pub enum OutputMode {
    Preferred,
    Size(i32, i32),
    SizeRefresh(i32, i32, u32),
}

#[derive(Clone, Copy, Debug, PartialEq, Eq, Structural)]
pub enum OutputPosition {
    Auto,
    Fixed(i32, i32),
}

/// A `position` value as the file holds it.
#[derive(Debug, PartialEq, Eq)]
pub enum PositionValue {
    Text(String),
    /// The elements of an array: the integer that each holds, if it is one.
    Array(Vec<Option<i64>>),
    Other,
}

/// An `[[outputs]]` entry as the file holds it.
#[derive(Debug, PartialEq, Eq)]
pub struct OutputRuleFile {
    pub name: String,
    pub scale: Option<Number>,
    pub transform: Option<String>,
    pub position: Option<PositionValue>,
    pub mode: Option<String>,
}

/// A validated `[[outputs]]` entry.
#[derive(Debug, PartialEq, Eq)]
pub struct OutputConfigOf<S> {
    pub name: S,
    pub scale: Option<Real>,
    pub transform: Option<Transform>,
    pub position: OutputPosition,
    pub mode: OutputMode,
}

pub type OutputConfig = OutputConfigOf<String>;

impl View for OutputConfigOf<String> {
    type V = OutputConfigOf<Seq<char>>;

    open spec fn view(&self) -> OutputConfigOf<Seq<char>> {
        OutputConfigOf {
            name: self.name@,
            scale: self.scale,
            transform: self.transform,
            position: self.position,
            mode: self.mode,
        }
    }
}

/// The transform that a text names.
pub open spec fn transform_of(w: Seq<char>) -> Result<Transform, Seq<char>> {
    if w == "normal"@ {
        Ok(Transform::Normal)
    } else if w == "90"@ {
        Ok(Transform::Rotated90)
    } else if w == "180"@ {
        Ok(Transform::Rotated180)
    } else if w == "270"@ {
        Ok(Transform::Rotated270)
    } else if w == "flipped"@ {
        Ok(Transform::Flipped)
    } else if w == "flipped-90"@ {
        Ok(Transform::Flipped90)
    } else if w == "flipped-180"@ {
        Ok(Transform::Flipped180)
    } else if w == "flipped-270"@ {
        Ok(Transform::Flipped270)
    } else {
        Err("unknown transform '"@ + w + "'"@)
    }
}

pub fn parse_transform(w: &str) -> (r: Result<Transform, String>)
    ensures
        types::plain(r) == transform_of(w@),
{
    if text_eq(w, "normal") {
        Ok(Transform::Normal)
    } else if text_eq(w, "90") {
        Ok(Transform::Rotated90)
    } else if text_eq(w, "180") {
        Ok(Transform::Rotated180)
    } else if text_eq(w, "270") {
        Ok(Transform::Rotated270)
    } else if text_eq(w, "flipped") {
        Ok(Transform::Flipped)
    } else if text_eq(w, "flipped-90") {
        Ok(Transform::Flipped90)
    } else if text_eq(w, "flipped-180") {
        Ok(Transform::Flipped180)
    } else if text_eq(w, "flipped-270") {
        Ok(Transform::Flipped270)
    } else {
        Err(join3("unknown transform '", w, "'"))
    }
}

/// A resolution like "1920x1080" in the mode text `s`.
pub open spec fn resolution_of(res: Seq<char>, s: Seq<char>) -> Result<(i32, i32), Seq<char>> {
    match text::split_once_char(res, 'x') {
        None => Err("invalid mode '"@ + s + "', expected WxH or WxH@Hz"@),
        Some((w, h)) => match text::signed(w) {
            None => Err("invalid width in mode '"@ + s + "'"@),
            Some(width) => match text::signed(h) {
                None => Err("invalid height in mode '"@ + s + "'"@),
                Some(height) => Ok((width as i32, height as i32)),
            },
        },
    }
}

/// The mode that a text stands for: "preferred", "WxH" or "WxH@Hz".
pub open spec fn output_mode_of(s: Seq<char>) -> Result<OutputMode, Seq<char>> {
    if s == "preferred"@ {
        Ok(OutputMode::Preferred)
    } else {
        match text::split_once_char(s, '@') {
            None => match resolution_of(s, s) {
                Err(e) => Err(e),
                Ok((w, h)) => Ok(OutputMode::Size(w, h)),
            },
            Some((res, hz)) => match resolution_of(res, s) {
                Err(e) => Err(e),
                Ok((w, h)) => match text::unsigned(hz, u32::MAX as nat) {
                    None => Err("invalid refresh rate in mode '"@ + s + "'"@),
                    Some(n) => Ok(OutputMode::SizeRefresh(w, h, n as u32)),
                },
            },
        }
    }
}

fn parse_resolution(res: &str, s: &str) -> (r: Result<(i32, i32), String>)
    ensures
        types::plain(r) == resolution_of(res@, s@),
{
    match cut_char(res, 'x') {
        None => Err(join3("invalid mode '", s, "', expected WxH or WxH@Hz")),
        Some((w, h)) => match parse_i32(w) {
            None => Err(join3("invalid width in mode '", s, "'")),
            Some(width) => match parse_i32(h) {
                None => Err(join3("invalid height in mode '", s, "'")),
                Some(height) => Ok((width, height)),
            },
        },
    }
}

pub fn parse_output_mode(s: &str) -> (r: Result<OutputMode, String>)
    ensures
        types::plain(r) == output_mode_of(s@),
{
    if text_eq(s, "preferred") {
        return Ok(OutputMode::Preferred);
    }
    match cut_char(s, '@') {
        None => match parse_resolution(s, s) {
            Err(e) => Err(e),
            Ok((w, h)) => Ok(OutputMode::Size(w, h)),
        },
        Some((res, hz)) => match parse_resolution(res, s) {
            Err(e) => Err(e),
            Ok((w, h)) => match parse_unsigned(hz, u32::MAX as u64) {
                None => Err(join3("invalid refresh rate in mode '", s, "'")),
                Some(n) => Ok(OutputMode::SizeRefresh(w, h, n as u32)),
            },
        },
    }
}

/// The position that a value stands for. An integer that does not fit 32 bits
/// keeps its low 32 bits.
pub open spec fn output_position_of(val: PositionValue) -> Result<OutputPosition, Seq<char>> {
    match val {
        PositionValue::Text(s) => if s@ == "auto"@ {
            Ok(OutputPosition::Auto)
        } else {
            Err("invalid position '"@ + s@ + "', expected \"auto\" or [x, y]"@)
        },
        PositionValue::Array(arr) => if arr@.len() != 2 {
            Err("position array must have 2 elements, got "@ + text::int_text(arr@.len() as int))
        } else {
            match arr@[0] {
                None => Err("position[0] must be an integer"@),
                Some(x) => match arr@[1] {
                    None => Err("position[1] must be an integer"@),
                    Some(y) => Ok(OutputPosition::Fixed(low_bits(x), low_bits(y))),
                },
            }
        },
        PositionValue::Other => Err("position must be \"auto\" or [x, y]"@),
    }
}

/// The low 32 bits of a number, as a signed number.
pub open spec fn low_bits(n: i64) -> i32 {
    let m = (n as int) % 0x1_0000_0000;
    if m < 0x8000_0000 {
        m as i32
    } else {
        (m - 0x1_0000_0000) as i32
    }
}

fn truncate_i64(n: i64) -> (r: i32)
    ensures
        r == low_bits(n),
{
    let m: i128 = (n as i128 - (i64::MIN as i128)) % 0x1_0000_0000;
    proof {
        assert((n - i64::MIN) % 0x1_0000_0000 == (n as int) % 0x1_0000_0000) by (nonlinear_arith)
            requires
                i64::MIN == -0x8000_0000_0000_0000,
                i64::MIN <= n <= i64::MAX,
        ;
    }
    if m < 0x8000_0000 {
        m as i32
    } else {
        (m - 0x1_0000_0000) as i32
    }
}

pub fn parse_output_position(val: &PositionValue) -> (r: Result<OutputPosition, String>)
    ensures
        types::plain(r) == output_position_of(*val),
{
    match val {
        PositionValue::Text(s) => {
            if text_eq(s.as_str(), "auto") {
                Ok(OutputPosition::Auto)
            } else {
                Err(join3("invalid position '", s.as_str(), "', expected \"auto\" or [x, y]"))
            }
        },
        PositionValue::Array(arr) => {
            if arr.len() != 2 {
                let n: String = text::show_u64(arr.len() as u64);
                let mut m: String = "position array must have 2 elements, got ".to_owned();
                m.append(n.as_str());
                return Err(m);
            }
            match arr[0] {
                None => Err("position[0] must be an integer".to_owned()),
                Some(x) => match arr[1] {
                    None => Err("position[1] must be an integer".to_owned()),
                    Some(y) => Ok(OutputPosition::Fixed(truncate_i64(x), truncate_i64(y))),
                },
            }
        },
        PositionValue::Other => Err("position must be \"auto\" or [x, y]".to_owned()),
    }
}

/// The entry that a rule stands for; the first bad field is the error.
pub open spec fn output_rule_of(r: OutputRuleFile) -> Result<
    OutputConfigOf<Seq<char>>,
    Seq<char>,
> {
    if r.scale is Some && numbers::real_rank(r.scale->0.value) is Some && numbers::real_rank(
        r.scale->0.value,
    )->0 <= 0 {
        Err("scale must be positive, got "@ + r.scale->0.text@)
    } else {
        let transform = match r.transform {
            None => Ok(None),
            Some(s) => match transform_of(s@) {
                Ok(t) => Ok(Some(t)),
                Err(e) => Err(e),
            },
        };
        let position = match r.position {
            None => Ok(OutputPosition::Auto),
            Some(v) => output_position_of(v),
        };
        let mode = match r.mode {
            None => Ok(OutputMode::Preferred),
            Some(s) => output_mode_of(s@),
        };
        match transform {
            Err(e) => Err(e),
            Ok(transform) => match position {
                Err(e) => Err(e),
                Ok(position) => match mode {
                    Err(e) => Err(e),
                    Ok(mode) => Ok(
                        OutputConfigOf {
                            name: r.name@,
                            scale: match r.scale {
                                Some(n) => Some(n.value),
                                None => None,
                            },
                            transform,
                            position,
                            mode,
                        },
                    ),
                },
            },
        }
    }
}

pub fn parse_output_rule(r: &OutputRuleFile) -> (res: Result<OutputConfig, String>)
    ensures
        types::modeled(res) == output_rule_of(*r),
{
    let scale: Option<Real> = match &r.scale {
        Some(n) => {
            let zero: Real = Real { bits: 0 };
            if n.value.is_number() && !zero.less(&n.value) {
                let mut m: String = "scale must be positive, got ".to_owned();
                m.append(n.text.as_str());
                return Err(m);
            }
            Some(n.value)
        },
        None => None,
    };
    let transform: Option<Transform> = match &r.transform {
        None => None,
        Some(s) => match parse_transform(s.as_str()) {
            Ok(t) => Some(t),
            Err(e) => {
                return Err(e);
            },
        },
    };
    let position: OutputPosition = match &r.position {
        None => OutputPosition::Auto,
        Some(v) => match parse_output_position(v) {
            Ok(p) => p,
            Err(e) => {
                return Err(e);
            },
        },
    };
    let mode: OutputMode = match &r.mode {
        None => OutputMode::Preferred,
        Some(s) => match parse_output_mode(s.as_str()) {
            Ok(m) => m,
            Err(e) => {
                return Err(e);
            },
        },
    };
    Ok(OutputConfig { name: r.name.clone(), scale, transform, position, mode })
}

} // verus!
