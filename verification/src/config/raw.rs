//! The configuration file as it was parsed, before any validation. Tables with
//! free keys are lists of key and value in the order in which they are read.
use vstd::prelude::*;

use crate::config::colors;
use crate::config::colors::is_readable;
use crate::config::decoration;
use crate::config::decoration::{
    BackendFileConfig, DecorationFileConfig, EffectsFileConfig, OutputOutlineConfig,
};
use crate::config::numbers::{Number, Real};
use crate::config::outputs::OutputRuleFile;
use crate::config::window_rules;
use crate::config::window_rules::WindowRuleFile;

verus! {

/// A table of strings.
pub type Table = Vec<(String, String)>;

#[derive(Debug, Default, PartialEq, Eq)]
pub struct ConfigFile {
    pub mod_key: Option<String>,
    pub focus_follows_mouse: Option<bool>,
    pub input: InputConfig,
    pub cursor: CursorConfig,
    pub navigation: NavigationConfig,
    pub zoom: ZoomConfig,
    pub snap: SnapConfig,
    pub outline: Option<OutputOutlineConfig>,
    pub background: BackgroundFileConfig,
    pub decorations: DecorationFileConfig,
    pub effects: EffectsFileConfig,
    pub backend: BackendFileConfig,
    pub autostart: Option<Vec<String>>,
    pub disable_defaults: Option<Vec<String>>,
    pub keybindings: Option<Table>,
    pub mouse: MouseFileConfig,
    pub gestures: GestureFileConfig,
    pub touch: ContextTables,
    pub env: Table,
    pub xwayland: XwaylandConfig,
    pub window_placement: Option<String>,
    pub window_rules: Option<Vec<WindowRuleFile>>,
    pub outputs: Option<Vec<OutputRuleFile>>,
}

/// Binding tables per context.
#[derive(Debug, Default, PartialEq, Eq)]
pub struct ContextTables {
    pub on_window: Option<Table>,
    pub on_canvas: Option<Table>,
    pub anywhere: Option<Table>,
}

#[derive(Debug, Default, PartialEq, Eq)]
pub struct InputConfig {
    pub keyboard: KeyboardConfig,
    pub trackpad: TrackpadConfig,
    pub mouse: MouseDeviceFileConfig,
    pub touch: TouchDeviceFileConfig,
}

#[derive(Debug, Default, PartialEq, Eq)]
pub struct TouchDeviceFileConfig {
    pub enable: Option<bool>,
    pub map_to_output: Option<String>,
}

#[derive(Debug, Default, PartialEq, Eq)]
pub struct TrackpadConfig {
    pub tap_to_click: Option<bool>,
    pub natural_scroll: Option<bool>,
    pub tap_and_drag: Option<bool>,
    pub accel_speed: Option<Number>,
    pub accel_profile: Option<String>,
    pub click_method: Option<String>,
    pub disable_while_typing: Option<bool>,
}

#[derive(Debug, Default, PartialEq, Eq)]
pub struct MouseDeviceFileConfig {
    pub accel_speed: Option<Number>,
    pub accel_profile: Option<String>,
    pub natural_scroll: Option<bool>,
}

#[derive(Debug, Default, PartialEq, Eq)]
pub struct KeyboardConfig {
    pub repeat_rate: Option<i32>,
    pub repeat_delay: Option<i32>,
    pub layout: Option<String>,
    pub variant: Option<String>,
    pub options: Option<String>,
    pub model: Option<String>,
    pub layout_independent: Option<bool>,
    pub num_lock: Option<bool>,
    pub caps_lock: Option<bool>,
    pub remember_layout_per_window: Option<bool>,
}

#[derive(Debug, Default, PartialEq, Eq)]
pub struct CursorConfig {
    pub theme: Option<String>,
    pub size: Option<u32>,
    pub inactive_opacity: Option<Number>,
}

#[derive(Debug, Default, PartialEq, Eq)]
pub struct NavigationConfig {
    pub animation_speed: Option<Number>,
    pub auto_navigate_on_close: Option<bool>,
    pub nudge_step: Option<i32>,
    pub pan_step: Option<Number>,
    pub trackpad_speed: Option<Number>,
    pub mouse_speed: Option<Number>,
    pub touch_speed: Option<Number>,
    pub drift: Option<Number>,
    /// Renamed to `drift`; kept only so that a stale value gives a migration
    /// warning.
    pub friction: Option<Number>,
    pub anchors: Option<Vec<(Real, Real)>>,
    pub edge_pan: EdgePanConfig,
}

#[derive(Debug, Default, PartialEq, Eq)]
pub struct EdgePanConfig {
    pub zone: Option<Number>,
    pub speed_min: Option<Number>,
    pub speed_max: Option<Number>,
    pub cursor_pan: Option<bool>,
    pub cursor_zone: Option<Number>,
}

#[derive(Debug, Default, PartialEq, Eq)]
pub struct ZoomConfig {
    pub step: Option<Number>,
    pub fit_padding: Option<Number>,
    pub reset_on_new_window: Option<bool>,
    pub reset_on_activation: Option<bool>,
    pub touch_speed: Option<Number>,
}

#[derive(Debug, Default, PartialEq, Eq)]
pub struct SnapConfig {
    pub enabled: Option<bool>,
    pub gap: Option<Number>,
    pub distance: Option<Number>,
    pub break_force: Option<Number>,
    pub corners: Option<bool>,
    pub centers: Option<bool>,
    /// Renamed to `corners`; kept only so that a stale value gives a migration
    /// warning.
    pub same_edge: Option<bool>,
    /// Renamed to `centers`; kept only so that a stale value gives a migration
    /// warning.
    pub edge_center: Option<bool>,
}

#[derive(Debug, Default, PartialEq, Eq)]
pub struct BackgroundFileConfig {
    pub kind: Option<String>,
    pub path: Option<String>,
    /// Optional image that a shader background samples.
    pub texture: Option<String>,
    /// Mirror-fold a tile image so that non-seamless edges tile cleanly.
    pub mirror_tile: Option<bool>,
    pub cache_shader: Option<bool>,
    pub transparent_shader: Option<bool>,
    pub cache_budget_mb: Option<u32>,
}

#[derive(Debug, Default, PartialEq, Eq)]
pub struct MouseFileConfig {
    pub resize_on_border: Option<bool>,
    pub decoration_resize_snapped: Option<bool>,
    pub decoration_fit_snapped: Option<bool>,
    pub bindings: ContextTables,
}

#[derive(Debug, Default, PartialEq, Eq)]
pub struct GestureFileConfig {
    pub swipe_threshold: Option<Number>,
    pub pinch_in_threshold: Option<Number>,
    pub pinch_out_threshold: Option<Number>,
    pub bindings: ContextTables,
}

#[derive(Debug, PartialEq, Eq)]
pub struct XwaylandConfig {
    pub enabled: bool,
    pub path: String,
}

impl Default for XwaylandConfig {
    fn default() -> (r: Self)
        ensures
            r.enabled,
            r.path@ == "xwayland-satellite"@,
    {
        XwaylandConfig { enabled: true, path: "xwayland-satellite".to_owned() }
    }
}

/// No table in any context.
pub open spec fn no_tables() -> ContextTables {
    ContextTables { on_window: None, on_canvas: None, anywhere: None }
}

/// Is this the file that sets nothing?
pub open spec fn is_empty_file(raw: ConfigFile) -> bool {
    &&& raw.mod_key is None
    &&& raw.focus_follows_mouse is None
    &&& raw.input == InputConfig {
        keyboard: KeyboardConfig {
            repeat_rate: None,
            repeat_delay: None,
            layout: None,
            variant: None,
            options: None,
            model: None,
            layout_independent: None,
            num_lock: None,
            caps_lock: None,
            remember_layout_per_window: None,
        },
        trackpad: TrackpadConfig {
            tap_to_click: None,
            natural_scroll: None,
            tap_and_drag: None,
            accel_speed: None,
            accel_profile: None,
            click_method: None,
            disable_while_typing: None,
        },
        mouse: MouseDeviceFileConfig {
            accel_speed: None,
            accel_profile: None,
            natural_scroll: None,
        },
        touch: TouchDeviceFileConfig { enable: None, map_to_output: None },
    }
    &&& raw.cursor == CursorConfig { theme: None, size: None, inactive_opacity: None }
    &&& raw.navigation == NavigationConfig {
        animation_speed: None,
        auto_navigate_on_close: None,
        nudge_step: None,
        pan_step: None,
        trackpad_speed: None,
        mouse_speed: None,
        touch_speed: None,
        drift: None,
        friction: None,
        anchors: None,
        edge_pan: EdgePanConfig {
            zone: None,
            speed_min: None,
            speed_max: None,
            cursor_pan: None,
            cursor_zone: None,
        },
    }
    &&& raw.zoom == ZoomConfig {
        step: None,
        fit_padding: None,
        reset_on_new_window: None,
        reset_on_activation: None,
        touch_speed: None,
    }
    &&& raw.snap == SnapConfig {
        enabled: None,
        gap: None,
        distance: None,
        break_force: None,
        corners: None,
        centers: None,
        same_edge: None,
        edge_center: None,
    }
    &&& raw.outline is None
    &&& raw.background == BackgroundFileConfig {
        kind: None,
        path: None,
        texture: None,
        mirror_tile: None,
        cache_shader: None,
        transparent_shader: None,
        cache_budget_mb: None,
    }
    &&& raw.decorations == DecorationFileConfig {
        bg_color: None,
        fg_color: None,
        corner_radius: None,
        default_mode: None,
        border_width: None,
        border_color: None,
        border_color_focused: None,
        shadow: None,
        title_bar_height: None,
        font: None,
        font_size: None,
        font_weight: None,
        title_align: None,
    }
    &&& raw.effects == EffectsFileConfig {
        blur_radius: None,
        blur_strength: None,
        animate_blur: None,
    }
    &&& raw.backend == BackendFileConfig {
        wait_for_frame_completion: None,
        disable_direct_scanout: None,
        disable_hardware_cursor: None,
        max_capture_fps: None,
    }
    &&& raw.autostart is None
    &&& raw.disable_defaults is None
    &&& raw.keybindings is None
    &&& raw.mouse == MouseFileConfig {
        resize_on_border: None,
        decoration_resize_snapped: None,
        decoration_fit_snapped: None,
        bindings: no_tables(),
    }
    &&& raw.gestures == GestureFileConfig {
        swipe_threshold: None,
        pinch_in_threshold: None,
        pinch_out_threshold: None,
        bindings: no_tables(),
    }
    &&& raw.touch == no_tables()
    &&& raw.env@.len() == 0
    &&& raw.xwayland.enabled
    &&& raw.xwayland.path@ == "xwayland-satellite"@
    &&& raw.window_placement is None
    &&& raw.window_rules is None
    &&& raw.outputs is None
}

/// Every color text of the file can be read.
pub open spec fn file_readable(raw: ConfigFile) -> bool {
    &&& decoration::decorations_readable(raw.decorations)
    &&& (raw.outline is Some ==> colors::opt_readable(raw.outline->0.color))
    &&& (raw.window_rules is Some ==> rules_readable(raw.window_rules->0@))
}

pub open spec fn rules_readable(rules: Seq<WindowRuleFile>) -> bool {
    forall|i: int| 0 <= i < rules.len() ==> window_rules::rule_readable(#[trigger] rules[i])
}

fn opt_is_readable(o: &Option<String>) -> (r: bool)
    ensures
        r == colors::opt_readable(*o),
{
    match o {
        Some(s) => is_readable(s.as_str()),
        None => true,
    }
}

fn rules_are_readable(rules: &Vec<WindowRuleFile>) -> (r: bool)
    ensures
        r == rules_readable(rules@),
{
    let n: usize = rules.len();
    let mut i: usize = 0;
    while i < n
        invariant
            i <= n,
            n == rules@.len(),
            forall|j: int| 0 <= j < i ==> window_rules::rule_readable(#[trigger] rules@[j]),
        decreases n - i,
    {
        if !opt_is_readable(&rules[i].border_color) || !opt_is_readable(
            &rules[i].border_color_focused,
        ) {
            proof {
                assert(!window_rules::rule_readable(rules@[i as int]));
            }
            return false;
        }
        i = i + 1;
    }
    true
}

impl ContextTables {
    pub fn empty() -> (r: ContextTables)
        ensures
            r == no_tables(),
    {
        ContextTables { on_window: None, on_canvas: None, anywhere: None }
    }
}

impl ConfigFile {
    /// The file that sets nothing.
    pub fn empty() -> (r: ConfigFile)
        ensures
            is_empty_file(r),
            file_readable(r),
    {
        ConfigFile {
            mod_key: None,
            focus_follows_mouse: None,
            input: InputConfig {
                keyboard: KeyboardConfig {
            repeat_rate: None,
            repeat_delay: None,
            layout: None,
            variant: None,
            options: None,
            model: None,
            layout_independent: None,
            num_lock: None,
            caps_lock: None,
            remember_layout_per_window: None,
                },
                trackpad: TrackpadConfig {
            tap_to_click: None,
            natural_scroll: None,
            tap_and_drag: None,
            accel_speed: None,
            accel_profile: None,
            click_method: None,
            disable_while_typing: None,
                },
                mouse: MouseDeviceFileConfig {
            accel_speed: None,
            accel_profile: None,
            natural_scroll: None,
                },
                touch: TouchDeviceFileConfig { enable: None, map_to_output: None },
            },
            cursor: CursorConfig { theme: None, size: None, inactive_opacity: None },
            navigation: NavigationConfig {
                animation_speed: None,
                auto_navigate_on_close: None,
                nudge_step: None,
                pan_step: None,
                trackpad_speed: None,
                mouse_speed: None,
                touch_speed: None,
                drift: None,
                friction: None,
                anchors: None,
                edge_pan: EdgePanConfig {
            zone: None,
            speed_min: None,
            speed_max: None,
            cursor_pan: None,
            cursor_zone: None,
                },
            },
            zoom: ZoomConfig {
                step: None,
                fit_padding: None,
                reset_on_new_window: None,
                reset_on_activation: None,
                touch_speed: None,
            },
            snap: SnapConfig {
                enabled: None,
                gap: None,
                distance: None,
                break_force: None,
                corners: None,
                centers: None,
                same_edge: None,
                edge_center: None,
            },
            outline: None,
            background: BackgroundFileConfig {
                kind: None,
                path: None,
                texture: None,
                mirror_tile: None,
                cache_shader: None,
                transparent_shader: None,
                cache_budget_mb: None,
            },
            decorations: DecorationFileConfig {
                bg_color: None,
                fg_color: None,
                corner_radius: None,
                default_mode: None,
                border_width: None,
                border_color: None,
                border_color_focused: None,
                shadow: None,
                title_bar_height: None,
                font: None,
                font_size: None,
                font_weight: None,
                title_align: None,
            },
            effects: EffectsFileConfig {
                blur_radius: None,
                blur_strength: None,
                animate_blur: None,
            },
            backend: BackendFileConfig {
                wait_for_frame_completion: None,
                disable_direct_scanout: None,
                disable_hardware_cursor: None,
                max_capture_fps: None,
            },
            autostart: None,
            disable_defaults: None,
            keybindings: None,
            mouse: MouseFileConfig {
                resize_on_border: None,
                decoration_resize_snapped: None,
                decoration_fit_snapped: None,
                bindings: ContextTables::empty(),
            },
            gestures: GestureFileConfig {
                swipe_threshold: None,
                pinch_in_threshold: None,
                pinch_out_threshold: None,
                bindings: ContextTables::empty(),
            },
            touch: ContextTables::empty(),
            env: Vec::new(),
            xwayland: XwaylandConfig::default(),
            window_placement: None,
            window_rules: None,
            outputs: None,
        }
    }

    /// Can every color text of the file be read?
    pub fn is_readable(&self) -> (r: bool)
        ensures
            r == file_readable(*self),
    {
        let d: &DecorationFileConfig = &self.decorations;
        if !opt_is_readable(&d.bg_color) || !opt_is_readable(&d.fg_color) || !opt_is_readable(
            &d.border_color,
        ) || !opt_is_readable(&d.border_color_focused) {
            return false;
        }
        if let Some(o) = &self.outline {
            if !opt_is_readable(&o.color) {
                return false;
            }
        }
        if let Some(rules) = &self.window_rules {
            if !rules_are_readable(rules) {
                return false;
            }
        }
        true
    }
}

} // verus!
