//! The settings that the decisions depend on.
use vstd::prelude::*;

verus! {

/// What a window rule does with a window that it matches.
#[derive(Clone, Copy, Debug, PartialEq, Eq, Structural)]
pub enum WindowAction {
    Tile,
    Float,
    Ignore,
}

/// The corner style that a window rule asks for.
#[derive(Clone, Copy, Debug, PartialEq, Eq, Structural)]
pub enum CornerStyle {
    Square,
    Rounded,
    SmallRounded,
}

/// A window rule, without the patterns that decide whether it matches.
/// Dimensions are logical pixels.
#[derive(Clone, Copy, Debug, PartialEq, Eq, Structural)]
pub struct CompiledWindowRule {
    pub action: WindowAction,
    pub width: Option<i32>,
    pub height: Option<i32>,
    pub corner_style: Option<CornerStyle>,
}

/// What closing a tab by its button does.
#[derive(Clone, Copy, Debug, PartialEq, Eq, Structural)]
pub enum TabCloseAction {
    CloseWindow,
    Untab,
}

/// Settings of the overlays.
#[derive(Clone, Debug)]
pub struct AppearanceConfig {
    pub active_border: bool,
    pub active_border_color: String,
    pub active_border_position: String,
    pub tab_strip_bg: String,
    pub tab_strip_active_bg: String,
    pub tab_strip_active_text: String,
    pub tab_strip_inactive_text: String,
    pub tab_strip_opacity: u8,
}

/// Settings of the daemon's behaviour.
#[derive(Clone, Copy, Debug)]
pub struct BehaviorConfig {
    pub compositor_safe_mode: bool,
    pub swap_chain_ghost_animation: bool,
    pub disable_snap_layouts: bool,
    pub tab_close_action: TabCloseAction,
}

/// Settings of animations.
#[derive(Clone, Copy, Debug)]
pub struct AnimationConfig {
    pub layout_duration_ms: u64,
    pub reduce_motion_on_battery: bool,
}

/// All settings.
#[derive(Clone, Debug)]
pub struct Config {
    pub appearance: AppearanceConfig,
    pub behavior: BehaviorConfig,
    pub animation: AnimationConfig,
}

impl CornerStyle {
    /// The radius of the style in pixels.
    pub open spec fn radius(self) -> u32 {
        match self {
            CornerStyle::Square => 0,
            CornerStyle::SmallRounded => 4,
            CornerStyle::Rounded => 8,
        }
    }

    /// The radius of the style in pixels.
    pub fn radius_px(self) -> (r: u32)
        ensures
            r == self.radius(),
    {
        match self {
            CornerStyle::Square => 0,
            CornerStyle::SmallRounded => 4,
            CornerStyle::Rounded => 8,
        }
    }
}

} // verus!
