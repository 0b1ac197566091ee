//! Developer-only controller presets.
use crate::controller::battery::{dualsense_status, LOW_BATTERY_PERCENT};
use crate::controller::model;
use crate::controller::model::{Connection, ControllerKind, ControllerStatus, PowerState};
use crate::text;
use vstd::prelude::*;

verus! {

/// What every emulated serial begins with.
pub open spec fn serial_prefix() -> Seq<char> {
    "emu-"@
}

/// Serial of the first emulated pad.
pub open spec fn primary_serial() -> Seq<char> {
    "emu-"@ + "1"@
}

/// Whether a serial belongs to an emulated pad.
pub fn is_emulated(serial: &str) -> (r: bool)
    ensures
        r == text::begins(serial@, serial_prefix()),
{
    text::str_begins(serial, "emu-")
}

/// Emulation presets.
#[derive(Debug, Clone, Copy, PartialEq, Eq, Structural)]
pub enum Preset {
    Discharging50,
    LowBattery,
    Charging,
    FullyCharged,
    /// Charging, then complete on successive applies when already charging.
    ChargeCompleteStep,
    TwoPads,
    Clear,
    /// Enable analytics and seed typical samples; show a discharging pad.
    AnalyticsSeedEstimates,
    /// Start charging from about empty (5%).
    AnalyticsPlugEmpty,
    /// Advance charge (+% and credit active time); finishes at complete when near full.
    AnalyticsChargeAdvance,
    /// Leave complete into discharging at 100%.
    AnalyticsUnplugFull,
    /// Advance drain (-% and credit active time); finishes at the empty bucket.
    AnalyticsDrainAdvance,
    /// Disconnect (pause an open from-full discharge).
    AnalyticsPause,
    /// Reconnect still discharging (resume a paused cycle).
    AnalyticsResume,
    /// Plug in while discharging (ends the play cycle, starts a charge).
    AnalyticsPlugMidDrain,
}

impl Preset {
    /// Menu entry of a preset.
    pub open spec fn label(self) -> Seq<char> {
        match self {
            Preset::Discharging50 => "Emulate: discharging 50%"@,
            Preset::LowBattery => "Emulate: low battery"@,
            Preset::Charging => "Emulate: charging"@,
            Preset::FullyCharged => "Emulate: fully charged"@,
            Preset::ChargeCompleteStep => "Emulate: charge complete step"@,
            Preset::TwoPads => "Emulate: two pads"@,
            Preset::Clear => "Clear emulation"@,
            Preset::AnalyticsSeedEstimates => "Analytics: seed estimates"@,
            Preset::AnalyticsPlugEmpty => "Analytics: plug empty"@,
            Preset::AnalyticsChargeAdvance => "Analytics: charge advance"@,
            Preset::AnalyticsUnplugFull => "Analytics: unplug from full"@,
            Preset::AnalyticsDrainAdvance => "Analytics: drain advance"@,
            Preset::AnalyticsPause => "Analytics: pause (pad off)"@,
            Preset::AnalyticsResume => "Analytics: resume"@,
            Preset::AnalyticsPlugMidDrain => "Analytics: plug mid-drain"@,
        }
    }

    /// Menu entry of a preset.
    pub fn menu_label(self) -> (r: &'static str)
        ensures
            r@ == self.label(),
    {
        match self {
            Preset::Discharging50 => "Emulate: discharging 50%",
            Preset::LowBattery => "Emulate: low battery",
            Preset::Charging => "Emulate: charging",
            Preset::FullyCharged => "Emulate: fully charged",
            Preset::ChargeCompleteStep => "Emulate: charge complete step",
            Preset::TwoPads => "Emulate: two pads",
            Preset::Clear => "Clear emulation",
            Preset::AnalyticsSeedEstimates => "Analytics: seed estimates",
            Preset::AnalyticsPlugEmpty => "Analytics: plug empty",
            Preset::AnalyticsChargeAdvance => "Analytics: charge advance",
            Preset::AnalyticsUnplugFull => "Analytics: unplug from full",
            Preset::AnalyticsDrainAdvance => "Analytics: drain advance",
            Preset::AnalyticsPause => "Analytics: pause (pad off)",
            Preset::AnalyticsResume => "Analytics: resume",
            Preset::AnalyticsPlugMidDrain => "Analytics: plug mid-drain",
        }
    }

    /// Whether a preset drives battery analytics.
    pub open spec fn analytic(self) -> bool {
        match self {
            Preset::Discharging50
            | Preset::LowBattery
            | Preset::Charging
            | Preset::FullyCharged
            | Preset::ChargeCompleteStep
            | Preset::TwoPads
            | Preset::Clear => false,
            _ => true,
        }
    }

    /// Whether a preset drives battery analytics.
    pub fn is_analytics(self) -> (r: bool)
        ensures
            r == self.analytic(),
    {
        matches!(
            self,
            Preset::AnalyticsSeedEstimates | Preset::AnalyticsPlugEmpty
                | Preset::AnalyticsChargeAdvance | Preset::AnalyticsUnplugFull
                | Preset::AnalyticsDrainAdvance | Preset::AnalyticsPause | Preset::AnalyticsResume
                | Preset::AnalyticsPlugMidDrain
        )
    }
}

/// An emulated pad.
pub open spec fn emulated(
    index: int,
    suffix: Seq<char>,
    percent: u8,
    state: PowerState,
    connection: Connection,
) -> model::StatusView {
    model::StatusView {
        index,
        kind: ControllerKind::DualSense,
        product: "DualSense"@,
        connection,
        serial: serial_prefix() + suffix,
        percent,
        state,
        supports_lightbar: true,
        supports_power_off: true,
    }
}

/// The first emulated pad alone.
pub open spec fn only(
    percent: u8,
    state: PowerState,
    connection: Connection,
) -> Seq<model::StatusView> {
    seq![emulated(1, "1"@, percent, state, connection)]
}

/// The first emulated pad among `s`.
pub open spec fn primary_among(s: Seq<model::StatusView>) -> Option<model::StatusView>
    decreases s.len(),
{
    if s.len() == 0 {
        None
    } else if s[0].serial == primary_serial() {
        Some(s[0])
    } else {
        primary_among(s.drop_first())
    }
}

/// Charge after one advance.
pub open spec fn charged_more(percent: u8) -> u8 {
    if percent + 20 >= 100 {
        100
    } else {
        (percent + 20) as u8
    }
}

/// Charge after one drain step; it stops in the lowest bucket.
pub open spec fn drained_more(percent: u8) -> u8 {
    if percent < 20 + LOW_BATTERY_PERCENT {
        LOW_BATTERY_PERCENT
    } else {
        (percent - 20) as u8
    }
}

/// Pads that a preset leaves, given the active ones.
pub open spec fn preset_pads(
    preset: Preset,
    current: Seq<model::StatusView>,
) -> Seq<model::StatusView> {
    match preset {
        Preset::Clear | Preset::AnalyticsPause => seq![],
        Preset::Discharging50 => only(50, PowerState::Discharging, Connection::Usb),
        Preset::LowBattery => only(
            LOW_BATTERY_PERCENT,
            PowerState::Discharging,
            Connection::Bluetooth,
        ),
        Preset::Charging => only(80, PowerState::Charging, Connection::Usb),
        Preset::FullyCharged => only(100, PowerState::Complete, Connection::Usb),
        Preset::ChargeCompleteStep => if current.len() == 1 && current[0].state
            == PowerState::Charging && text::begins(current[0].serial, serial_prefix()) {
            only(100, PowerState::Complete, Connection::Usb)
        } else {
            only(80, PowerState::Charging, Connection::Usb)
        },
        Preset::TwoPads => seq![
            emulated(
                1,
                "1"@,
                LOW_BATTERY_PERCENT,
                PowerState::Discharging,
                Connection::Bluetooth,
            ),
            emulated(2, "2"@, 80, PowerState::Charging, Connection::Usb),
        ],
        Preset::AnalyticsSeedEstimates => only(65, PowerState::Discharging, Connection::Bluetooth),
        Preset::AnalyticsPlugEmpty => only(5, PowerState::Charging, Connection::Usb),
        Preset::AnalyticsChargeAdvance => match primary_among(current) {
            Some(pad) => if pad.state == PowerState::Charging {
                let next = charged_more(pad.percent);
                if next >= 100 {
                    only(100, PowerState::Complete, Connection::Usb)
                } else {
                    only(next, PowerState::Charging, Connection::Usb)
                }
            } else if pad.state == PowerState::Complete {
                only(100, PowerState::Complete, Connection::Usb)
            } else {
                only(5, PowerState::Charging, Connection::Usb)
            },
            None => only(5, PowerState::Charging, Connection::Usb),
        },
        Preset::AnalyticsUnplugFull => only(100, PowerState::Discharging, Connection::Bluetooth),
        Preset::AnalyticsDrainAdvance => match primary_among(current) {
            Some(pad) => if pad.state == PowerState::Discharging {
                only(drained_more(pad.percent), PowerState::Discharging, Connection::Bluetooth)
            } else {
                only(100, PowerState::Discharging, Connection::Bluetooth)
            },
            None => only(100, PowerState::Discharging, Connection::Bluetooth),
        },
        Preset::AnalyticsResume => {
            let percent = match primary_among(current) {
                Some(pad) => pad.percent,
                None => 60,
            };
            only(percent, PowerState::Discharging, Connection::Bluetooth)
        },
        Preset::AnalyticsPlugMidDrain => {
            let percent = match primary_among(current) {
                Some(pad) => if pad.state == PowerState::Discharging {
                    pad.percent
                } else {
                    40
                },
                None => 40,
            };
            only(percent, PowerState::Charging, Connection::Usb)
        },
    }
}

fn one(index: usize, suffix: &str, percent: u8, state: PowerState, connection: Connection) -> (r:
    ControllerStatus)
    ensures
        r@ == emulated(index as int, suffix@, percent, state, connection),
{
    dualsense_status(index, "DualSense", connection, text::cat2("emu-", suffix), percent, state)
}

fn primary(percent: u8, state: PowerState, connection: Connection) -> (r: Vec<ControllerStatus>)
    ensures
        model::statuses(r@) == only(percent, state, connection),
{
    let mut r: Vec<ControllerStatus> = Vec::new();
    r.push(one(1, "1", percent, state, connection));
    assert(model::statuses(r@) =~= only(percent, state, connection));
    r
}

/// Percent and state of the first emulated pad.
pub fn primary_from(current: &[ControllerStatus]) -> (r: Option<(u8, PowerState)>)
    ensures
        match r {
            Some(p) => primary_among(model::statuses(current@)) matches Some(pad) && pad.percent
                == p.0 && pad.state == p.1,
            None => primary_among(model::statuses(current@)) is None,
        },
{
    let ghost s = model::statuses(current@);
    let mut i: usize = 0;
    let want = text::cat2("emu-", "1");
    assert(s.skip(0) == s);
    while i < current.len()
        invariant
            i <= current@.len(),
            s == model::statuses(current@),
            want@ == primary_serial(),
            primary_among(s) == primary_among(s.skip(i as int)),
        decreases current@.len() - i,
    {
        let c = &current[i];
        assert(s.skip(i as int)[0] == c@);
        assert(s.skip(i as int).drop_first() == s.skip(i + 1));
        if text::str_eq(c.serial.as_str(), want.as_str()) {
            return Some((c.percent, c.state));
        }
        i = i + 1;
    }
    None
}

/// Apply a preset. `current` is the active emulated list (may be empty).
pub fn apply_preset(preset: Preset, current: &[ControllerStatus]) -> (r: Vec<ControllerStatus>)
    ensures
        model::statuses(r@) == preset_pads(preset, model::statuses(current@)),
{
    match preset {
        Preset::Clear | Preset::AnalyticsPause => {
            let r: Vec<ControllerStatus> = Vec::new();
            assert(model::statuses(r@) =~= Seq::<model::StatusView>::empty());
            r
        },
        Preset::Discharging50 => primary(50, PowerState::Discharging, Connection::Usb),
        Preset::LowBattery => primary(
            LOW_BATTERY_PERCENT,
            PowerState::Discharging,
            Connection::Bluetooth,
        ),
        Preset::Charging => primary(80, PowerState::Charging, Connection::Usb),
        Preset::FullyCharged => primary(100, PowerState::Complete, Connection::Usb),
        Preset::ChargeCompleteStep => {
            let charging = current.len() == 1 && matches!(current[0].state, PowerState::Charging)
                && is_emulated(current[0].serial.as_str());
            if charging {
                primary(100, PowerState::Complete, Connection::Usb)
            } else {
                primary(80, PowerState::Charging, Connection::Usb)
            }
        },
        Preset::TwoPads => {
            let mut r: Vec<ControllerStatus> = Vec::new();
            r.push(
                one(
                    1,
                    "1",
                    LOW_BATTERY_PERCENT,
                    PowerState::Discharging,
                    Connection::Bluetooth,
                ),
            );
            r.push(one(2, "2", 80, PowerState::Charging, Connection::Usb));
            assert(model::statuses(r@) =~= preset_pads(preset, model::statuses(current@)));
            r
        },
        Preset::AnalyticsSeedEstimates => primary(
            65,
            PowerState::Discharging,
            Connection::Bluetooth,
        ),
        Preset::AnalyticsPlugEmpty => primary(5, PowerState::Charging, Connection::Usb),
        Preset::AnalyticsChargeAdvance => match primary_from(current) {
            Some((percent, state)) => {
                if state == PowerState::Charging {
                    if percent >= 80 {
                        primary(100, PowerState::Complete, Connection::Usb)
                    } else {
                        primary(percent + 20, PowerState::Charging, Connection::Usb)
                    }
                } else if state == PowerState::Complete {
                    primary(100, PowerState::Complete, Connection::Usb)
                } else {
                    primary(5, PowerState::Charging, Connection::Usb)
                }
            },
            None => primary(5, PowerState::Charging, Connection::Usb),
        },
        Preset::AnalyticsUnplugFull => primary(
            100,
            PowerState::Discharging,
            Connection::Bluetooth,
        ),
        Preset::AnalyticsDrainAdvance => match primary_from(current) {
            Some((percent, state)) => {
                if state.is_discharging() {
                    let next: u8 = if percent < 20 + LOW_BATTERY_PERCENT {
                        LOW_BATTERY_PERCENT
                    } else {
                        percent - 20
                    };
                    primary(next, PowerState::Discharging, Connection::Bluetooth)
                } else {
                    primary(100, PowerState::Discharging, Connection::Bluetooth)
                }
            },
            None => primary(100, PowerState::Discharging, Connection::Bluetooth),
        },
        Preset::AnalyticsResume => {
            let percent: u8 = match primary_from(current) {
                Some((percent, _)) => percent,
                None => 60,
            };
            primary(percent, PowerState::Discharging, Connection::Bluetooth)
        },
        Preset::AnalyticsPlugMidDrain => {
            let percent: u8 = match primary_from(current) {
                Some((percent, state)) => if state.is_discharging() {
                    percent
                } else {
                    40
                },
                None => 40,
            };
            primary(percent, PowerState::Charging, Connection::Usb)
        },
    }
}

/// Every pad that a preset leaves is an emulated one.
pub proof fn law_presets_leave_emulated_pads(preset: Preset, current: Seq<model::StatusView>, i: int)
    requires
        0 <= i < preset_pads(preset, current).len(),
    ensures
        text::begins(preset_pads(preset, current)[i].serial, serial_prefix()),
{
    let pad = preset_pads(preset, current)[i];
    assert forall|suffix: Seq<char>| text::begins(
        #[trigger] (serial_prefix() + suffix),
        serial_prefix(),
    ) by {
        assert((serial_prefix() + suffix).take(serial_prefix().len() as int) == serial_prefix());
    }
    assert(pad.serial == serial_prefix() + "1"@ || pad.serial == serial_prefix() + "2"@);
}

} // verus!
