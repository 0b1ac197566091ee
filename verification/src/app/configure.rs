//! The settings window: what its messages change and ask for.
use crate::controller::emulate::Preset;
use crate::gesture;
use crate::gesture::{default_gesture, format_gesture, GestureControl, GestureRecorder};
use crate::platform::UiSoundKind;
use crate::prefs;
use crate::prefs::{
    clamp_low_battery_percent, clamp_start_screen_sound_volume, Prefs, StartPrefs, ToastPosition,
};
use vstd::prelude::*;

verus! {

/// Page of the settings.
#[derive(Debug, Clone, Copy, PartialEq, Eq, Structural)]
pub enum Section {
    /// The page with the start-screen gesture.
    System,
    /// The page that shows live pad input.
    PadInput,
    /// Any other page: nothing depends on which.
    Other,
}

/// Kind of toast that can be switched on and off.
#[derive(Debug, Clone, Copy, PartialEq, Eq, Structural)]
pub enum NotificationSetting {
    Connect,
    Disconnect,
    Low,
    Charged,
}

/// A message of the settings. Edits of the color spectrum carry what the editor needs.
#[derive(Debug, Clone, Copy, PartialEq, Eq, Structural)]
pub enum ConfigureMessage {
    SelectSection(Section),
    SetNotification(NotificationSetting, bool),
    SetLowBatteryPercent(u8),
    SetToastPosition(ToastPosition),
    SetAnalyticsEnabled(bool),
    SetLightbarEnabled(bool),
    SetStartScreenEnabled(bool),
    SetStartScreenSounds(bool),
    SetStartScreenSoundVolume(u8),
    StartGestureRecord,
    ResetStartGesture,
    CancelGestureRecord,
    OpenDataFolder,
    SetAutostart(bool),
    SelectStop(usize),
    MoveStop(u8),
    AddStopAt(u8),
    RemoveStop,
    RemoveStopAt(usize),
    HueChanged,
    SaturationValueChanged,
    ResetSpectrum,
    DeveloperPreset(Preset),
    Close,
    DragWindow,
}

/// An edit of the color spectrum.
#[derive(Debug, Clone, Copy, PartialEq, Eq, Structural)]
pub enum SpectrumEdit {
    Move(u8),
    Add(u8),
    RemoveSelected,
    Remove(usize),
    Hue,
    SaturationValue,
    Reset,
}

/// Something that the settings ask for.
#[derive(Debug, Clone, Copy, PartialEq, Eq, Structural)]
pub enum ConfigureEffect {
    SavePrefs,
    SyncLowBattery,
    /// Rebuild the pad rows and fit the popup to them.
    SyncRows,
    ShowPositionPreview,
    RefreshAnalyticsPanel,
    SetLightbars(bool),
    /// Give every pad its color again.
    ReapplySpectrum,
    SelectStop(usize),
    /// Edit the spectrum, and apply it where the edit changed it.
    EditSpectrum(SpectrumEdit),
    CloseStartScreen,
    Sound(UiSoundKind),
    /// Gesture recording may latch to any pad again.
    ClearRecordLatch,
    ResetDetectors,
    /// Show what pads hold now.
    ReadPadInput,
    OpenDataFolder,
    SetAutostart(bool),
    DeveloperPreset(Preset),
    HideAndClose(u64),
    Drag(u64),
}

/// What is known from elsewhere when the settings get a message.
#[derive(Debug, Clone, Copy, PartialEq, Eq, Structural)]
pub struct ConfigureFacts {
    pub start_open: bool,
    /// The settings window.
    pub window: Option<u64>,
}

/// Preferences after a message; resetting the gesture aside.
pub open spec fn prefs_after(p: Prefs, m: ConfigureMessage) -> Prefs {
    match m {
        ConfigureMessage::SetNotification(s, on) => match s {
            NotificationSetting::Connect => Prefs { notify_connect: on, ..p },
            NotificationSetting::Disconnect => Prefs { notify_disconnect: on, ..p },
            NotificationSetting::Low => Prefs { notify_low: on, ..p },
            NotificationSetting::Charged => Prefs { notify_charged: on, ..p },
        },
        ConfigureMessage::SetLowBatteryPercent(v) => Prefs {
            low_battery_percent: prefs::clamped_low_battery(v),
            ..p
        },
        ConfigureMessage::SetToastPosition(pos) => Prefs { toast_position: pos, ..p },
        ConfigureMessage::SetAnalyticsEnabled(on) => Prefs { analytics_enabled: on, ..p },
        ConfigureMessage::SetLightbarEnabled(on) => Prefs { lightbar_enabled: on, ..p },
        ConfigureMessage::SetStartScreenEnabled(on) => Prefs { start_screen_enabled: on, ..p },
        _ => p,
    }
}

/// Start-screen preferences after a message.
pub open spec fn start_prefs_after(p: StartPrefs, m: ConfigureMessage) -> StartPrefs {
    match m {
        ConfigureMessage::SetStartScreenSounds(on) => StartPrefs { sounds_enabled: on, ..p },
        ConfigureMessage::SetStartScreenSoundVolume(v) => StartPrefs {
            sound_volume: prefs::clamped_volume(v),
            ..p
        },
        _ => p,
    }
}

/// Whether a message ends a gesture recording.
pub open spec fn ends_recording(section: Section, m: ConfigureMessage) -> bool {
    match m {
        ConfigureMessage::SelectSection(s) => section == Section::System && s != Section::System,
        ConfigureMessage::SetStartScreenEnabled(on) => !on,
        ConfigureMessage::ResetStartGesture
        | ConfigureMessage::CancelGestureRecord
        | ConfigureMessage::Close => true,
        _ => false,
    }
}

/// The spectrum edit of a message.
pub open spec fn edit_of(m: ConfigureMessage) -> Option<SpectrumEdit> {
    match m {
        ConfigureMessage::MoveStop(v) => Some(SpectrumEdit::Move(v)),
        ConfigureMessage::AddStopAt(v) => Some(SpectrumEdit::Add(v)),
        ConfigureMessage::RemoveStop => Some(SpectrumEdit::RemoveSelected),
        ConfigureMessage::RemoveStopAt(i) => Some(SpectrumEdit::Remove(i)),
        ConfigureMessage::HueChanged => Some(SpectrumEdit::Hue),
        ConfigureMessage::SaturationValueChanged => Some(SpectrumEdit::SaturationValue),
        ConfigureMessage::ResetSpectrum => Some(SpectrumEdit::Reset),
        _ => None,
    }
}

/// What follows a message, the end of a recording aside.
pub open spec fn effects_of(
    p: Prefs,
    sp: StartPrefs,
    m: ConfigureMessage,
    f: ConfigureFacts,
) -> Seq<ConfigureEffect> {
    match m {
        ConfigureMessage::SelectSection(s) => if s == Section::PadInput {
            seq![ConfigureEffect::ReadPadInput]
        } else {
            seq![]
        },
        ConfigureMessage::SetNotification(..) => seq![ConfigureEffect::SavePrefs],
        ConfigureMessage::SetLowBatteryPercent(v) => if p.low_battery_percent
            != prefs::clamped_low_battery(v) {
            seq![
                ConfigureEffect::SavePrefs,
                ConfigureEffect::SyncLowBattery,
                ConfigureEffect::SyncRows,
            ]
        } else {
            seq![]
        },
        ConfigureMessage::SetToastPosition(_) => seq![
            ConfigureEffect::SavePrefs,
            ConfigureEffect::ShowPositionPreview,
        ],
        ConfigureMessage::SetAnalyticsEnabled(_) => seq![
            ConfigureEffect::SavePrefs,
            ConfigureEffect::RefreshAnalyticsPanel,
            ConfigureEffect::SyncRows,
        ],
        ConfigureMessage::SetLightbarEnabled(on) => seq![
            ConfigureEffect::SavePrefs,
            ConfigureEffect::SetLightbars(on),
            ConfigureEffect::SyncLowBattery,
        ] + (if on {
            seq![ConfigureEffect::ReapplySpectrum]
        } else {
            seq![]
        }),
        ConfigureMessage::SetStartScreenEnabled(on) => if !on && f.start_open {
            seq![ConfigureEffect::SavePrefs, ConfigureEffect::CloseStartScreen]
        } else {
            seq![ConfigureEffect::SavePrefs]
        },
        ConfigureMessage::SetStartScreenSounds(on) => if on {
            seq![ConfigureEffect::SavePrefs, ConfigureEffect::Sound(UiSoundKind::Nav)]
        } else {
            seq![ConfigureEffect::SavePrefs]
        },
        ConfigureMessage::SetStartScreenSoundVolume(v) => if sp.sound_volume
            == prefs::clamped_volume(v) {
            seq![]
        } else if sp.sounds_enabled {
            seq![ConfigureEffect::SavePrefs, ConfigureEffect::Sound(UiSoundKind::Nav)]
        } else {
            seq![ConfigureEffect::SavePrefs]
        },
        ConfigureMessage::StartGestureRecord => seq![
            ConfigureEffect::ClearRecordLatch,
            ConfigureEffect::ResetDetectors,
        ],
        ConfigureMessage::ResetStartGesture => seq![
            ConfigureEffect::SavePrefs,
            ConfigureEffect::ResetDetectors,
        ],
        ConfigureMessage::CancelGestureRecord => seq![],
        ConfigureMessage::OpenDataFolder => seq![ConfigureEffect::OpenDataFolder],
        ConfigureMessage::SetAutostart(on) => seq![ConfigureEffect::SetAutostart(on)],
        ConfigureMessage::SelectStop(i) => seq![ConfigureEffect::SelectStop(i)],
        ConfigureMessage::DeveloperPreset(d) => seq![ConfigureEffect::DeveloperPreset(d)],
        ConfigureMessage::Close => match f.window {
            Some(id) => seq![ConfigureEffect::HideAndClose(id)],
            None => seq![],
        },
        ConfigureMessage::DragWindow => match f.window {
            Some(id) => seq![ConfigureEffect::Drag(id)],
            None => seq![],
        },
        _ => match edit_of(m) {
            Some(e) => seq![ConfigureEffect::EditSpectrum(e)],
            None => seq![],
        },
    }
}

/// What follows a message.
pub open spec fn all_effects(
    section: Section,
    p: Prefs,
    sp: StartPrefs,
    m: ConfigureMessage,
    f: ConfigureFacts,
) -> Seq<ConfigureEffect> {
    (if ends_recording(section, m) {
        seq![ConfigureEffect::ClearRecordLatch]
    } else {
        seq![]
    }) + effects_of(p, sp, m, f)
}

fn set_notification(p: &mut Prefs, s: NotificationSetting, on: bool)
    ensures
        *final(p) == prefs_after(*old(p), ConfigureMessage::SetNotification(s, on)),
{
    match s {
        NotificationSetting::Connect => p.notify_connect = on,
        NotificationSetting::Disconnect => p.notify_disconnect = on,
        NotificationSetting::Low => p.notify_low = on,
        NotificationSetting::Charged => p.notify_charged = on,
    }
}

fn spectrum_edit(m: ConfigureMessage) -> (r: Option<SpectrumEdit>)
    ensures
        r == edit_of(m),
{
    match m {
        ConfigureMessage::MoveStop(v) => Some(SpectrumEdit::Move(v)),
        ConfigureMessage::AddStopAt(v) => Some(SpectrumEdit::Add(v)),
        ConfigureMessage::RemoveStop => Some(SpectrumEdit::RemoveSelected),
        ConfigureMessage::RemoveStopAt(i) => Some(SpectrumEdit::Remove(i)),
        ConfigureMessage::HueChanged => Some(SpectrumEdit::Hue),
        ConfigureMessage::SaturationValueChanged => Some(SpectrumEdit::SaturationValue),
        ConfigureMessage::ResetSpectrum => Some(SpectrumEdit::Reset),
        _ => None,
    }
}

/// Whether a message sets a preference, the gesture and sounds aside.
pub open spec fn sets_prefs(m: ConfigureMessage) -> bool {
    m is SetNotification || m is SetLowBatteryPercent || m is SetToastPosition || m
        is SetAnalyticsEnabled || m is SetLightbarEnabled || m is SetStartScreenEnabled
}

/// Whether a message sets a preference of cues.
pub open spec fn sets_sounds(m: ConfigureMessage) -> bool {
    m is SetStartScreenSounds || m is SetStartScreenSoundVolume
}

fn on_prefs_message(
    p: &mut Prefs,
    Ghost(sp): Ghost<StartPrefs>,
    m: ConfigureMessage,
    f: ConfigureFacts,
    out: &mut Vec<ConfigureEffect>,
)
    requires
        sets_prefs(m),
    ensures
        *final(p) == prefs_after(*old(p), m),
        final(out)@ == old(out)@ + effects_of(*old(p), sp, m, f),
{
    let ghost before = out@;
    let ghost start = *p;
    match m {
        ConfigureMessage::SetNotification(s, on) => {
            set_notification(p, s, on);
            out.push(ConfigureEffect::SavePrefs);
        },
        ConfigureMessage::SetLowBatteryPercent(v) => {
            let percent: u8 = clamp_low_battery_percent(v);
            if p.low_battery_percent != percent {
                p.low_battery_percent = percent;
                out.push(ConfigureEffect::SavePrefs);
                out.push(ConfigureEffect::SyncLowBattery);
                out.push(ConfigureEffect::SyncRows);
            }
        },
        ConfigureMessage::SetToastPosition(pos) => {
            p.toast_position = pos;
            out.push(ConfigureEffect::SavePrefs);
            out.push(ConfigureEffect::ShowPositionPreview);
        },
        ConfigureMessage::SetAnalyticsEnabled(on) => {
            p.analytics_enabled = on;
            out.push(ConfigureEffect::SavePrefs);
            out.push(ConfigureEffect::RefreshAnalyticsPanel);
            out.push(ConfigureEffect::SyncRows);
        },
        ConfigureMessage::SetLightbarEnabled(on) => {
            p.lightbar_enabled = on;
            out.push(ConfigureEffect::SavePrefs);
            out.push(ConfigureEffect::SetLightbars(on));
            out.push(ConfigureEffect::SyncLowBattery);
            if on {
                out.push(ConfigureEffect::ReapplySpectrum);
            }
        },
        ConfigureMessage::SetStartScreenEnabled(on) => {
            p.start_screen_enabled = on;
            out.push(ConfigureEffect::SavePrefs);
            if !on && f.start_open {
                out.push(ConfigureEffect::CloseStartScreen);
            }
        },
        _ => {},
    }
    assert(out@ =~= before + effects_of(start, sp, m, f));
}

fn on_sound_message(
    sp: &mut StartPrefs,
    Ghost(p): Ghost<Prefs>,
    m: ConfigureMessage,
    Ghost(f): Ghost<ConfigureFacts>,
    out: &mut Vec<ConfigureEffect>,
)
    requires
        sets_sounds(m),
    ensures
        *final(sp) == start_prefs_after(*old(sp), m),
        final(out)@ == old(out)@ + effects_of(p, *old(sp), m, f),
{
    let ghost before = out@;
    let ghost start = *sp;
    match m {
        ConfigureMessage::SetStartScreenSounds(on) => {
            sp.sounds_enabled = on;
            out.push(ConfigureEffect::SavePrefs);
            if on {
                out.push(ConfigureEffect::Sound(UiSoundKind::Nav));
            }
        },
        ConfigureMessage::SetStartScreenSoundVolume(v) => {
            let volume: u8 = clamp_start_screen_sound_volume(v);
            if sp.sound_volume != volume {
                sp.sound_volume = volume;
                out.push(ConfigureEffect::SavePrefs);
                if sp.sounds_enabled {
                    out.push(ConfigureEffect::Sound(UiSoundKind::Nav));
                }
            }
        },
        _ => {},
    }
    assert(out@ =~= before + effects_of(p, start, m, f));
}

fn push_other_effects(
    Ghost(p): Ghost<Prefs>,
    Ghost(sp): Ghost<StartPrefs>,
    m: ConfigureMessage,
    f: ConfigureFacts,
    out: &mut Vec<ConfigureEffect>,
)
    requires
        !sets_prefs(m),
        !sets_sounds(m),
    ensures
        final(out)@ == old(out)@ + effects_of(p, sp, m, f),
{
    let ghost before = out@;
    match m {
        ConfigureMessage::SelectSection(s) => {
            if s == Section::PadInput {
                out.push(ConfigureEffect::ReadPadInput);
            }
        },
        ConfigureMessage::StartGestureRecord => {
            out.push(ConfigureEffect::ClearRecordLatch);
            out.push(ConfigureEffect::ResetDetectors);
        },
        ConfigureMessage::ResetStartGesture => {
            out.push(ConfigureEffect::SavePrefs);
            out.push(ConfigureEffect::ResetDetectors);
        },
        ConfigureMessage::CancelGestureRecord => {},
        ConfigureMessage::OpenDataFolder => out.push(ConfigureEffect::OpenDataFolder),
        ConfigureMessage::SetAutostart(on) => out.push(ConfigureEffect::SetAutostart(on)),
        ConfigureMessage::SelectStop(i) => out.push(ConfigureEffect::SelectStop(i)),
        ConfigureMessage::DeveloperPreset(d) => out.push(ConfigureEffect::DeveloperPreset(d)),
        ConfigureMessage::Close => {
            if let Some(id) = f.window {
                out.push(ConfigureEffect::HideAndClose(id));
            }
        },
        ConfigureMessage::DragWindow => {
            if let Some(id) = f.window {
                out.push(ConfigureEffect::Drag(id));
            }
        },
        _ => {
            if let Some(e) = spectrum_edit(m) {
                out.push(ConfigureEffect::EditSpectrum(e));
            }
        },
    }
    assert(out@ =~= before + effects_of(p, sp, m, f));
}

/// Takes a message of the settings.
pub fn on_configure_message(
    section: &mut Section,
    p: &mut Prefs,
    sp: &mut StartPrefs,
    recorder: &mut GestureRecorder,
    m: ConfigureMessage,
    f: ConfigureFacts,
) -> (r: Vec<ConfigureEffect>)
    ensures
        r@ == all_effects(*old(section), *old(p), *old(sp), m, f),
        *final(section) == (match m {
            ConfigureMessage::SelectSection(s) => s,
            _ => *old(section),
        }),
        *final(sp) == start_prefs_after(*old(sp), m),
        m != ConfigureMessage::ResetStartGesture ==> *final(p) == prefs_after(*old(p), m),
        m == ConfigureMessage::ResetStartGesture ==> {
            &&& *final(p) == (Prefs {
                start_screen_gesture: final(p).start_screen_gesture,
                ..*old(p)
            })
            &&& final(p).start_screen_gesture@ == seq![
                GestureControl::L2,
                GestureControl::R2,
                GestureControl::L3,
                GestureControl::R3,
            ]
        },
        if ends_recording(*old(section), m) || m == ConfigureMessage::StartGestureRecord {
            &&& final(recorder).active == (m == ConfigureMessage::StartGestureRecord)
            &&& !final(recorder).saw_input
            &&& final(recorder).peak@ == Set::<GestureControl>::empty()
        } else {
            *final(recorder) == *old(recorder)
        },
{
    let ghost want = all_effects(*section, *p, *sp, m, f);
    let mut out: Vec<ConfigureEffect> = Vec::new();
    let ends = match m {
        ConfigureMessage::SelectSection(s) => *section == Section::System && s
            != Section::System,
        ConfigureMessage::SetStartScreenEnabled(on) => !on,
        ConfigureMessage::ResetStartGesture
        | ConfigureMessage::CancelGestureRecord
        | ConfigureMessage::Close => true,
        _ => false,
    };
    if ends {
        recorder.cancel();
        out.push(ConfigureEffect::ClearRecordLatch);
    }
    match m {
        ConfigureMessage::SetNotification(..)
        | ConfigureMessage::SetLowBatteryPercent(_)
        | ConfigureMessage::SetToastPosition(_)
        | ConfigureMessage::SetAnalyticsEnabled(_)
        | ConfigureMessage::SetLightbarEnabled(_)
        | ConfigureMessage::SetStartScreenEnabled(_) => {
            on_prefs_message(p, Ghost(*sp), m, f, &mut out);
        },
        ConfigureMessage::SetStartScreenSounds(_)
        | ConfigureMessage::SetStartScreenSoundVolume(_) => {
            on_sound_message(sp, Ghost(*p), m, Ghost(f), &mut out);
        },
        _ => {
            push_other_effects(Ghost(*p), Ghost(*sp), m, f, &mut out);
            match m {
                ConfigureMessage::SelectSection(s) => *section = s,
                ConfigureMessage::StartGestureRecord => recorder.start(),
                ConfigureMessage::ResetStartGesture => {
                    p.start_screen_gesture = default_gesture();
                },
                _ => {},
            }
        },
    }
    assert(out@ =~= want);
    out
}

/// Label of the largest set held at one time while a gesture is recorded; nothing before the
/// first control.
pub fn gesture_recording_live(recorder: &GestureRecorder) -> (r: String)
    ensures
        r@ == (if gesture::members(recorder.peak@).len() == 0 {
            seq![]
        } else {
            gesture::gesture_label(gesture::members(recorder.peak@))
        }),
{
    let peak = recorder.peak().to_vec();
    if peak.len() == 0 {
        let r = String::new();
        assert(r@ =~= Seq::<char>::empty());
        r
    } else {
        format_gesture(peak.as_slice())
    }
}

// ---------------------------------------------------------------------------
// Color bars
// ---------------------------------------------------------------------------

/// State of a drag on the spectrum bar.
#[derive(Debug, Clone, Copy, PartialEq, Eq, Structural)]
pub struct BarState {
    pub dragging: bool,
    /// Letting go now removes the stop.
    pub remove_armed: bool,
}

/// Something that happens on the spectrum bar; positions are worked out beforehand.
#[derive(Debug, Clone, Copy, PartialEq, Eq, Structural)]
pub enum BarEvent {
    /// The left button went down on a stop, or at this percent of the bar.
    PressedStop(usize),
    PressedBar(u8),
    /// The right button went down on a stop.
    RightPressedStop(usize),
    /// The pointer moved to this percent, far off the bar or not.
    Moved { percent: u8, far_off: bool },
    Released,
}

/// What the spectrum bar does.
#[derive(Debug, Clone, Copy, PartialEq, Eq, Structural)]
pub enum BarAction {
    Ignore,
    Redraw,
    Publish(ConfigureMessage),
}

/// What the spectrum bar does, and its state then. Stops can be removed while more than
/// `min_stops` remain.
pub open spec fn bar_result(s: BarState, e: BarEvent, stops: nat, min_stops: nat) -> (
    BarState,
    BarAction,
) {
    match e {
        BarEvent::PressedStop(i) => (
            BarState { dragging: true, remove_armed: false },
            BarAction::Publish(ConfigureMessage::SelectStop(i)),
        ),
        BarEvent::PressedBar(v) => (s, BarAction::Publish(ConfigureMessage::AddStopAt(v))),
        BarEvent::RightPressedStop(i) => (
            s,
            BarAction::Publish(
                if stops <= min_stops {
                    ConfigureMessage::SelectStop(i)
                } else {
                    ConfigureMessage::RemoveStopAt(i)
                },
            ),
        ),
        BarEvent::Moved { percent, far_off } => if !s.dragging {
            (s, BarAction::Ignore)
        } else if stops > min_stops && far_off {
            (BarState { remove_armed: true, ..s }, BarAction::Redraw)
        } else {
            (
                BarState { remove_armed: false, ..s },
                BarAction::Publish(ConfigureMessage::MoveStop(percent)),
            )
        },
        BarEvent::Released => if !s.dragging {
            (s, BarAction::Ignore)
        } else {
            (
                BarState { dragging: false, remove_armed: false },
                if s.remove_armed {
                    BarAction::Publish(ConfigureMessage::RemoveStop)
                } else {
                    BarAction::Redraw
                },
            )
        },
    }
}

impl BarState {
    /// Takes something that happens on the spectrum bar.
    pub fn update(&mut self, e: BarEvent, stops: usize, min_stops: usize) -> (r: BarAction)
        ensures
            (*final(self), r) == bar_result(*old(self), e, stops as nat, min_stops as nat),
    {
        match e {
            BarEvent::PressedStop(i) => {
                self.dragging = true;
                self.remove_armed = false;
                BarAction::Publish(ConfigureMessage::SelectStop(i))
            },
            BarEvent::PressedBar(v) => BarAction::Publish(ConfigureMessage::AddStopAt(v)),
            BarEvent::RightPressedStop(i) => if stops <= min_stops {
                BarAction::Publish(ConfigureMessage::SelectStop(i))
            } else {
                BarAction::Publish(ConfigureMessage::RemoveStopAt(i))
            },
            BarEvent::Moved { percent, far_off } => {
                if !self.dragging {
                    return BarAction::Ignore;
                }
                self.remove_armed = stops > min_stops && far_off;
                if self.remove_armed {
                    BarAction::Redraw
                } else {
                    BarAction::Publish(ConfigureMessage::MoveStop(percent))
                }
            },
            BarEvent::Released => {
                if !self.dragging {
                    return BarAction::Ignore;
                }
                let remove = self.remove_armed;
                self.dragging = false;
                self.remove_armed = false;
                if remove {
                    BarAction::Publish(ConfigureMessage::RemoveStop)
                } else {
                    BarAction::Redraw
                }
            },
        }
    }
}

/// How the pointer looks over the spectrum bar.
#[derive(Debug, Clone, Copy, PartialEq, Eq, Structural)]
pub enum BarCursor {
    Normal,
    Crosshair,
    Grab,
    Grabbing,
    NotAllowed,
}

/// How the pointer looks: over a stop it can be grabbed, over the bar a stop can be added
/// while there is room.
pub fn bar_cursor(s: BarState, over_bar: bool, over_stop: bool, stops: usize, max_stops: usize) -> (r:
    BarCursor)
    ensures
        r == (if s.dragging {
            if s.remove_armed {
                BarCursor::NotAllowed
            } else {
                BarCursor::Grabbing
            }
        } else if over_bar && over_stop {
            BarCursor::Grab
        } else if over_bar && stops < max_stops {
            BarCursor::Crosshair
        } else {
            BarCursor::Normal
        }),
{
    if s.dragging {
        if s.remove_armed {
            BarCursor::NotAllowed
        } else {
            BarCursor::Grabbing
        }
    } else if over_bar && over_stop {
        BarCursor::Grab
    } else if over_bar && stops < max_stops {
        BarCursor::Crosshair
    } else {
        BarCursor::Normal
    }
}

/// Something that happens on the hue bar or the saturation square.
#[derive(Debug, Clone, Copy, PartialEq, Eq, Structural)]
pub enum DragEvent {
    /// The left button went down, on the control or elsewhere.
    Pressed { over: bool },
    Moved,
    Released,
}

/// What the hue bar or the saturation square does.
#[derive(Debug, Clone, Copy, PartialEq, Eq, Structural)]
pub enum DragAction {
    Ignore,
    Redraw,
    /// Take the color under the pointer.
    Sample,
}

/// What a drag on the hue bar or the saturation square does, and whether it goes on. Nothing is
/// sampled while the place of the pointer is unknown.
pub open spec fn drag_result(dragging: bool, e: DragEvent, known: bool) -> (bool, DragAction) {
    let sample = if known {
        DragAction::Sample
    } else {
        DragAction::Ignore
    };
    match e {
        DragEvent::Pressed { over } => if over {
            (true, sample)
        } else {
            (dragging, DragAction::Ignore)
        },
        DragEvent::Moved => if dragging {
            (true, sample)
        } else {
            (false, DragAction::Ignore)
        },
        DragEvent::Released => if dragging {
            (false, DragAction::Redraw)
        } else {
            (false, DragAction::Ignore)
        },
    }
}

/// Takes something that happens on the hue bar or the saturation square.
pub fn drag_update(dragging: &mut bool, e: DragEvent, known: bool) -> (r: DragAction)
    ensures
        (*final(dragging), r) == drag_result(*old(dragging), e, known),
{
    match e {
        DragEvent::Pressed { over } => {
            if !over {
                return DragAction::Ignore;
            }
            *dragging = true;
        },
        DragEvent::Moved => {
            if !*dragging {
                return DragAction::Ignore;
            }
        },
        DragEvent::Released => {
            if !*dragging {
                return DragAction::Ignore;
            }
            *dragging = false;
            return DragAction::Redraw;
        },
    }
    if known {
        DragAction::Sample
    } else {
        DragAction::Ignore
    }
}

/// How much of the outline around a battery level is filled.
#[derive(Debug, Clone, Copy, PartialEq, Eq, Structural)]
pub enum RingFill {
    Empty,
    /// Clockwise from the top, in hundredths of a turn.
    Arc(u8),
    Whole,
}

/// How much of the outline around a battery level is filled.
pub fn ring_fill(percent: u8) -> (r: RingFill)
    ensures
        r == (if percent == 0 {
            RingFill::Empty
        } else if percent >= 100 {
            RingFill::Whole
        } else {
            RingFill::Arc(percent)
        }),
{
    if percent == 0 {
        RingFill::Empty
    } else if percent >= 100 {
        RingFill::Whole
    } else {
        RingFill::Arc(percent)
    }
}

// ---------------------------------------------------------------------------
// Laws
// ---------------------------------------------------------------------------

/// Whatever a message changes in the preferences is saved.
pub proof fn law_changes_are_saved(
    section: Section,
    p: Prefs,
    sp: StartPrefs,
    m: ConfigureMessage,
    f: ConfigureFacts,
)
    requires
        prefs_after(p, m) != p || start_prefs_after(sp, m) != sp || m
            == ConfigureMessage::ResetStartGesture,
    ensures
        all_effects(section, p, sp, m, f).contains(ConfigureEffect::SavePrefs),
{
    let a = all_effects(section, p, sp, m, f);
    let e = effects_of(p, sp, m, f);
    let n = a.len() - e.len();
    assert(e[0] == ConfigureEffect::SavePrefs);
    assert(a[n] == e[0]);
}

/// Closing the settings ends a gesture recording.
pub proof fn law_close_ends_recording(section: Section)
    ensures
        ends_recording(section, ConfigureMessage::Close),
{
}

/// The spectrum never loses a stop below its minimum through the bar.
pub proof fn law_minimum_stops_stay(s: BarState, e: BarEvent, stops: nat, min_stops: nat)
    requires
        stops <= min_stops,
        !s.remove_armed,
    ensures
        !bar_result(s, e, stops, min_stops).0.remove_armed,
        !(bar_result(s, e, stops, min_stops).1 matches BarAction::Publish(m) && (m
            == ConfigureMessage::RemoveStop || m is RemoveStopAt)),
{
}

} // verus!
