//! Notification and start-screen preferences.
use crate::controller::battery::LOW_BATTERY_PERCENT;
use crate::gesture::{default_gesture, GestureControl};
use vstd::prelude::*;

verus! {

/// Inclusive bounds for the low-battery threshold (bucket mid-points).
pub const LOW_BATTERY_PERCENT_MIN: u8 = 5;

pub const LOW_BATTERY_PERCENT_MAX: u8 = 35;

/// Corner or edge at which toasts appear.
#[derive(Debug, Clone, Copy, PartialEq, Eq, Structural)]
pub enum ToastPosition {
    TopLeft,
    TopCenter,
    TopRight,
    BottomLeft,
    BottomCenter,
    BottomRight,
}

impl Default for ToastPosition {
    fn default() -> (r: Self)
        ensures
            r == ToastPosition::BottomCenter,
    {
        ToastPosition::BottomCenter
    }
}

impl ToastPosition {
    /// Stable name under which a position is stored.
    pub open spec fn label(self) -> Seq<char> {
        match self {
            ToastPosition::TopLeft => "top_left"@,
            ToastPosition::TopCenter => "top_center"@,
            ToastPosition::TopRight => "top_right"@,
            ToastPosition::BottomLeft => "bottom_left"@,
            ToastPosition::BottomCenter => "bottom_center"@,
            ToastPosition::BottomRight => "bottom_right"@,
        }
    }

    /// Stable name under which a position is stored.
    pub fn as_str(self) -> (r: &'static str)
        ensures
            r@ == self.label(),
    {
        match self {
            ToastPosition::TopLeft => "top_left",
            ToastPosition::TopCenter => "top_center",
            ToastPosition::TopRight => "top_right",
            ToastPosition::BottomLeft => "bottom_left",
            ToastPosition::BottomCenter => "bottom_center",
            ToastPosition::BottomRight => "bottom_right",
        }
    }
}

/// How the game list is sorted.
#[derive(Debug, Clone, Copy, PartialEq, Eq, Structural)]
pub enum GamesSortMode {
    Alphabetical,
    LastPlayed,
}

impl GamesSortMode {
    /// The other mode.
    pub fn cycle(self) -> (r: GamesSortMode)
        ensures
            r != self,
    {
        match self {
            GamesSortMode::Alphabetical => GamesSortMode::LastPlayed,
            GamesSortMode::LastPlayed => GamesSortMode::Alphabetical,
        }
    }
}

/// Preferences. The lightbar spectrum is kept by the color editor.
#[derive(Debug, Clone, PartialEq, Eq)]
pub struct Prefs {
    pub notify_low: bool,
    pub notify_charged: bool,
    pub notify_connect: bool,
    pub notify_disconnect: bool,
    pub low_battery_percent: u8,
    pub toast_position: ToastPosition,
    /// Opt-in local charge/play duration analytics (default off).
    pub analytics_enabled: bool,
    /// Drive lightbars from the battery spectrum (default on).
    pub lightbar_enabled: bool,
    /// Open the start screen on a first connect / reopen gesture (default on).
    pub start_screen_enabled: bool,
    /// Chord that reopens the start screen while a pad is connected.
    /// Empty: no gesture reopen (opening on a first connect still works).
    pub start_screen_gesture: Vec<GestureControl>,
}

/// Largest observable mid-point that is not above `value`, at least the smallest one.
pub open spec fn clamped_low_battery(value: u8) -> u8 {
    if value >= 35 {
        35
    } else if value >= 25 {
        25
    } else if value >= 15 {
        15
    } else {
        5
    }
}

/// Floors a threshold to the greatest observable mid-point, so that values a battery never
/// reports keep their fire points.
pub fn clamp_low_battery_percent(value: u8) -> (r: u8)
    ensures
        r == clamped_low_battery(value),
        LOW_BATTERY_PERCENT_MIN <= r <= LOW_BATTERY_PERCENT_MAX,
{
    if value >= 35 {
        35
    } else if value >= 25 {
        25
    } else if value >= 15 {
        15
    } else {
        5
    }
}

/// Clamping keeps fire points: a bucket mid-point triggers a threshold exactly when it
/// triggers the clamped threshold, for thresholds within the bounds.
pub proof fn law_clamp_keeps_fire_points(threshold: u8, level: u8)
    requires
        LOW_BATTERY_PERCENT_MIN <= threshold <= LOW_BATTERY_PERCENT_MAX,
        level <= 9,
    ensures
        (level * 10 + 5 <= threshold) == (level * 10 + 5 <= clamped_low_battery(threshold)),
        clamped_low_battery(clamped_low_battery(threshold)) == clamped_low_battery(threshold),
{
}

impl Default for Prefs {
    fn default() -> (r: Self)
        ensures
            r.notify_low,
            r.notify_charged,
            r.notify_connect,
            r.notify_disconnect,
            r.low_battery_percent == LOW_BATTERY_PERCENT,
            r.toast_position == ToastPosition::BottomCenter,
            !r.analytics_enabled,
            r.lightbar_enabled,
            r.start_screen_enabled,
            r.start_screen_gesture@ == seq![
                GestureControl::L2,
                GestureControl::R2,
                GestureControl::L3,
                GestureControl::R3,
            ],
    {
        Prefs {
            notify_low: true,
            notify_charged: true,
            notify_connect: true,
            notify_disconnect: true,
            low_battery_percent: LOW_BATTERY_PERCENT,
            toast_position: ToastPosition::default(),
            analytics_enabled: false,
            lightbar_enabled: true,
            start_screen_enabled: true,
            start_screen_gesture: default_gesture(),
        }
    }
}

impl Prefs {
    /// Preferences as they were read back, with the threshold brought into bounds.
    pub fn loaded(self) -> (r: Self)
        ensures
            r == (Prefs {
                low_battery_percent: clamped_low_battery(self.low_battery_percent),
                ..self
            }),
    {
        let mut prefs = self;
        prefs.low_battery_percent = clamp_low_battery_percent(prefs.low_battery_percent);
        prefs
    }
}

/// Preferences of the start screen beside [`Prefs`].
#[derive(Debug, Clone, Copy, PartialEq, Eq, Structural)]
pub struct StartPrefs {
    pub sounds_enabled: bool,
    /// Volume of cues, in percent.
    pub sound_volume: u8,
    pub games_sort_mode: GamesSortMode,
    /// Remembered pads are listed too.
    pub show_all_controllers: bool,
}

impl StartPrefs {
    /// Volume, in percent, at which cues of the start screen play; nothing while they are off.
    pub fn cue_volume(&self) -> (r: Option<u8>)
        ensures
            r == (if self.sounds_enabled {
                Some(self.sound_volume)
            } else {
                None
            }),
    {
        if self.sounds_enabled {
            Some(self.sound_volume)
        } else {
            None
        }
    }
}

/// Volume within a hundred percent.
pub open spec fn clamped_volume(volume: u8) -> u8 {
    if volume > 100 {
        100
    } else {
        volume
    }
}

/// Volume within a hundred percent.
pub fn clamp_start_screen_sound_volume(volume: u8) -> (r: u8)
    ensures
        r == clamped_volume(volume),
{
    if volume > 100 {
        100
    } else {
        volume
    }
}

} // verus!
