//! Developer presets: emulated pads that stand in for real ones.
use crate::analytics::store;
use crate::app::pads;
use crate::app::pads::{Applied, ApplyFacts, Pads};
use crate::controller::battery::dualsense_status;
use crate::controller::emulate;
use crate::controller::emulate::Preset;
use crate::controller::model;
use crate::controller::model::{Connection, ControllerStatus, PowerState};
use crate::prefs::Prefs;
use crate::text;
use vstd::prelude::*;

verus! {

/// Active time credited before a charge edge of a preset.
pub const CHARGE_CREDIT_MS: u64 = 900000;

/// Active time credited before another edge of a preset.
pub const DRAIN_CREDIT_MS: u64 = 1500000;

/// Battery of a resumed pad of which nothing is known.
pub const RESUME_PERCENT: u8 = 60;

/// Whether pads are emulated, and the percent to resume with.
#[derive(Debug, Clone, Copy, PartialEq, Eq, Structural)]
pub struct DevState {
    pub emulating: bool,
    pub paused_percent: Option<u8>,
}

/// What followed once a preset was applied.
#[derive(Debug)]
pub struct DevOutcome {
    /// Analytics were switched on for it.
    pub enabled_analytics: bool,
    /// The primary pad was first shown fully charged.
    pub first: Option<Applied>,
    pub applied: Applied,
    /// Analytics are to be saved and their panel redrawn before the pads are taken in.
    pub save_analytics: bool,
    /// Real pads are polled anew.
    pub refresh: bool,
    /// New time of the last battery poll.
    pub polled_at_ms: Option<u64>,
}

/// Percent of the primary developer pad.
pub open spec fn primary_percent(s: Seq<model::StatusView>) -> Option<u8> {
    match emulate::primary_among(s) {
        Some(p) => Some(p.percent),
        None => None,
    }
}

/// Whether a fully charged primary developer pad is shown.
pub open spec fn primary_complete(s: Seq<model::StatusView>) -> bool {
    exists|i: int|
        0 <= i < s.len() && (#[trigger] s[i]).serial == emulate::primary_serial() && s[i].state
            == PowerState::Complete
}

/// A primary developer pad.
pub open spec fn primary_pad(
    connection: Connection,
    percent: u8,
    state: PowerState,
) -> model::StatusView {
    model::StatusView {
        index: 1,
        kind: model::ControllerKind::DualSense,
        product: "DualSense"@,
        connection,
        serial: emulate::primary_serial(),
        percent,
        state,
        supports_lightbar: true,
        supports_power_off: true,
    }
}

/// Emulation state after a preset.
pub open spec fn state_after(
    dev: DevState,
    preset: Preset,
    controllers: Seq<model::StatusView>,
) -> DevState {
    if preset == Preset::Clear {
        DevState { emulating: false, paused_percent: None }
    } else {
        DevState {
            emulating: true,
            paused_percent: if preset == Preset::AnalyticsPause && primary_percent(controllers)
                is Some {
                primary_percent(controllers)
            } else {
                dev.paused_percent
            },
        }
    }
}

/// Analytics before the pads of a preset are taken in.
pub open spec fn analytics_before(
    a: store::StoreView,
    preset: Preset,
    now_ms: u64,
) -> store::StoreView {
    if preset == Preset::AnalyticsChargeAdvance {
        a.dev_credited(emulate::primary_serial(), CHARGE_CREDIT_MS)
    } else if preset == Preset::AnalyticsDrainAdvance || preset == Preset::AnalyticsPlugMidDrain {
        a.dev_credited(emulate::primary_serial(), DRAIN_CREDIT_MS)
    } else if preset == Preset::AnalyticsSeedEstimates {
        a.dev_seeded(emulate::primary_serial(), now_ms)
    } else {
        a
    }
}

/// Percent of a resumed pad: the paused one, else that of its open window.
pub open spec fn resume_percent(dev: DevState, a: store::StoreView) -> u8 {
    let serial = emulate::primary_serial();
    match dev.paused_percent {
        Some(p) => p,
        None => if a.records.dom().contains(serial) {
            match a.records[serial].in_progress {
                Some(b) => b.percent,
                None => RESUME_PERCENT,
            }
        } else {
            RESUME_PERCENT
        },
    }
}

/// Pads of a preset.
pub open spec fn preset_next(
    dev: DevState,
    preset: Preset,
    p: pads::PadsView,
) -> Seq<model::StatusView> {
    if preset == Preset::Clear {
        seq![]
    } else if preset == Preset::AnalyticsResume {
        seq![
            primary_pad(
                Connection::Bluetooth,
                resume_percent(dev, p.analytics),
                PowerState::Discharging,
            ),
        ]
    } else {
        emulate::preset_pads(preset, p.controllers)
    }
}

/// Whether a fully charged pad is shown first: unplugging from full needs that edge.
pub open spec fn completes_first(preset: Preset, controllers: Seq<model::StatusView>) -> bool {
    preset == Preset::AnalyticsUnplugFull && !primary_complete(controllers)
}

/// The fully charged pad that is shown first.
pub open spec fn full_pad() -> Seq<model::StatusView> {
    seq![primary_pad(Connection::Usb, 100, PowerState::Complete)]
}

/// Everything once analytics were credited or seeded.
pub open spec fn credited(p: pads::PadsView, preset: Preset, now_ms: u64) -> pads::PadsView {
    pads::PadsView { analytics: analytics_before(p.analytics, preset, now_ms), ..p }
}

/// Everything when the pads of a preset are taken in: the full pad may have been shown first.
pub open spec fn shown_before(
    p: pads::PadsView,
    preset: Preset,
    prefs: Prefs,
    now_ms: u64,
) -> pads::PadsView {
    if completes_first(preset, p.controllers) {
        credited(p, preset, now_ms).applied(full_pad(), prefs, now_ms)
    } else {
        credited(p, preset, now_ms)
    }
}

/// Everything once a preset was applied.
pub open spec fn dev_applied(
    p: pads::PadsView,
    dev: DevState,
    preset: Preset,
    prefs: Prefs,
    now_ms: u64,
) -> pads::PadsView {
    shown_before(p, preset, prefs, now_ms).applied(
        preset_next(dev, preset, credited(p, preset, now_ms)),
        prefs,
        now_ms,
    )
}

fn primary_serial_text() -> (r: String)
    ensures
        r@ == emulate::primary_serial(),
{
    text::cat2("emu-", "1")
}

fn has_complete_primary(v: &[ControllerStatus]) -> (r: bool)
    ensures
        r == primary_complete(model::statuses(v@)),
{
    let ghost s = model::statuses(v@);
    let want = primary_serial_text();
    let mut i: usize = 0;
    while i < v.len()
        invariant
            i <= v@.len(),
            s == model::statuses(v@),
            want@ == emulate::primary_serial(),
            forall|k: int|
                0 <= k < i ==> !((#[trigger] s[k]).serial == emulate::primary_serial() && s[k].state
                    == PowerState::Complete),
        decreases v@.len() - i,
    {
        assert(s[i as int] == v@[i as int]@);
        if text::str_eq(v[i].serial.as_str(), want.as_str()) && v[i].state
            == PowerState::Complete {
            return true;
        }
        i = i + 1;
    }
    false
}

fn one_pad(connection: Connection, percent: u8, state: PowerState) -> (r: Vec<ControllerStatus>)
    ensures
        model::statuses(r@) == seq![primary_pad(connection, percent, state)],
{
    let mut out: Vec<ControllerStatus> = Vec::new();
    out.push(dualsense_status(1, "DualSense", connection, primary_serial_text(), percent, state));
    assert(model::statuses(out@) =~= seq![primary_pad(connection, percent, state)]);
    out
}

/// Applies a developer preset: credits and seeds analytics, then takes in the emulated pads.
pub fn apply_dev_preset(
    pads: &mut Pads,
    dev: &mut DevState,
    prefs: &mut Prefs,
    preset: Preset,
    facts: ApplyFacts,
) -> (r: DevOutcome)
    ensures
        *final(dev) == state_after(*old(dev), preset, old(pads)@.controllers),
        r.enabled_analytics == (preset.analytic() && !old(prefs).analytics_enabled),
        *final(prefs) == (Prefs {
            analytics_enabled: old(prefs).analytics_enabled || preset.analytic(),
            ..*old(prefs)
        }),
        final(pads)@ == dev_applied(
            old(pads)@,
            *old(dev),
            preset,
            *final(prefs),
            facts.now_ms,
        ),
        r.applied.follows(
            shown_before(old(pads)@, preset, *final(prefs), facts.now_ms),
            preset_next(*old(dev), preset, credited(old(pads)@, preset, facts.now_ms)),
            *final(prefs),
            facts,
        ),
        r.first is Some <==> completes_first(preset, old(pads)@.controllers),
        r.first matches Some(a) ==> a.follows(
            credited(old(pads)@, preset, facts.now_ms),
            full_pad(),
            *final(prefs),
            facts,
        ),
        r.save_analytics == (preset != Preset::Clear),
        r.refresh == (preset == Preset::Clear),
        r.polled_at_ms == if preset == Preset::Clear {
            Some(facts.now_ms)
        } else {
            None
        },
{
    if preset == Preset::Clear {
        dev.emulating = false;
        dev.paused_percent = None;
        let none: Vec<ControllerStatus> = Vec::new();
        assert(model::statuses(none@) =~= Seq::<model::StatusView>::empty());
        let applied = pads.apply_controllers(none, prefs, facts);
        return DevOutcome {
            enabled_analytics: false,
            first: None,
            applied,
            save_analytics: false,
            refresh: true,
            polled_at_ms: Some(facts.now_ms),
        };
    }
    let enabled_analytics = preset.is_analytics() && !prefs.analytics_enabled;
    if enabled_analytics {
        prefs.analytics_enabled = true;
    }
    let serial = primary_serial_text();
    match preset {
        Preset::AnalyticsChargeAdvance => {
            pads.analytics.dev_credit_active(serial.as_str(), CHARGE_CREDIT_MS);
        },
        Preset::AnalyticsDrainAdvance | Preset::AnalyticsPlugMidDrain => {
            pads.analytics.dev_credit_active(serial.as_str(), DRAIN_CREDIT_MS);
        },
        Preset::AnalyticsSeedEstimates => {
            pads.analytics.dev_seed_estimates(serial.as_str(), facts.now_ms);
        },
        _ => {},
    }
    if preset == Preset::AnalyticsPause {
        if let Some((percent, _state)) = emulate::primary_from(pads.controllers.as_slice()) {
            dev.paused_percent = Some(percent);
        }
    }
    let complete_first = preset == Preset::AnalyticsUnplugFull && !has_complete_primary(
        pads.controllers.as_slice(),
    );
    let next = if preset == Preset::AnalyticsResume {
        let percent: u8 = match dev.paused_percent {
            Some(p) => p,
            None => match pads.analytics.in_progress(serial.as_str()) {
                Some(b) => b.percent,
                None => RESUME_PERCENT,
            },
        };
        one_pad(Connection::Bluetooth, percent, PowerState::Discharging)
    } else {
        emulate::apply_preset(preset, pads.controllers.as_slice())
    };
    dev.emulating = true;
    let first = if complete_first {
        Some(
            pads.apply_controllers(
                one_pad(Connection::Usb, 100, PowerState::Complete),
                prefs,
                facts,
            ),
        )
    } else {
        None
    };
    let applied = pads.apply_controllers(next, prefs, facts);
    DevOutcome {
        enabled_analytics,
        first,
        applied,
        save_analytics: true,
        refresh: false,
        polled_at_ms: None,
    }
}

/// A paused developer pad resumes at the percent it was paused with.
pub proof fn law_resume_follows_pause(
    dev: DevState,
    controllers: Seq<model::StatusView>,
    a: store::StoreView,
)
    requires
        emulate::primary_among(controllers) is Some,
    ensures
        resume_percent(state_after(dev, Preset::AnalyticsPause, controllers), a)
            == emulate::primary_among(controllers)->0.percent,
{
}

} // verus!
