//! Input-report parsing into a sample of held controls.
use crate::gesture;
use crate::gesture::{ControlSet, GestureControl, CONTROL_COUNT};
use vstd::prelude::*;

verus! {

/// Analog travel from which a trigger counts as pressed.
pub const TRIGGER_ANALOG_THRESHOLD: u8 = 30;

/// Raw value of a centred stick axis.
pub const STICK_CENTER: u8 = 128;

/// Stick axes as offsets from the centre, in steps of 1/128 of full travel.
#[derive(Debug, Clone, Copy, PartialEq, Eq, Structural)]
pub struct Sticks {
    pub lx: i16,
    pub ly: i16,
    pub rx: i16,
    pub ry: i16,
}

/// Controls of one input report.
#[derive(Debug, Clone, Copy, PartialEq, Eq, Structural)]
pub struct PadSample {
    pub held: ControlSet,
    pub sticks: Sticks,
    pub dpad_up: bool,
    pub dpad_down: bool,
    pub cross: bool,
    pub circle: bool,
    pub square: bool,
    pub triangle: bool,
    pub options: bool,
    pub l2: bool,
    pub r2: bool,
}

/// Byte at `i`, or `missing` when the report is shorter.
pub open spec fn byte_or(buf: Seq<u8>, i: int, missing: u8) -> u8 {
    if 0 <= i < buf.len() {
        buf[i]
    } else {
        missing
    }
}

fn get_or(buf: &[u8], i: usize, missing: u8) -> (r: u8)
    ensures
        r == byte_or(buf@, i as int, missing),
{
    if i < buf.len() {
        buf[i]
    } else {
        missing
    }
}

/// Offset of a raw axis value from the centre.
pub open spec fn axis_offset(raw: u8) -> int {
    raw - STICK_CENTER
}

fn axis_u8(raw: u8) -> (r: i16)
    ensures
        r == axis_offset(raw),
{
    raw as i16 - STICK_CENTER as i16
}

/// The three button bytes and the trigger travel of a report.
pub struct Buttons {
    pub b0: u8,
    pub b1: u8,
    pub b2: u8,
    pub l2_analog: u8,
    pub r2_analog: u8,
}

/// Button bytes behind the report id at `base`.
pub open spec fn buttons_of(buf: Seq<u8>, base: int) -> Buttons {
    Buttons {
        b0: byte_or(buf, base + 8, 0),
        b1: byte_or(buf, base + 9, 0),
        b2: byte_or(buf, base + 10, 0),
        l2_analog: byte_or(buf, base + 5, 0),
        r2_analog: byte_or(buf, base + 6, 0),
    }
}

impl Buttons {
    /// Direction of the pad, clockwise from up; 8 and above is released.
    pub open spec fn dpad(self) -> u8 {
        self.b0 & 0x0F
    }

    /// Whether a control is pressed.
    pub open spec fn pressed(self, c: GestureControl) -> bool {
        match c {
            GestureControl::Square => self.b0 & 0x10 != 0,
            GestureControl::Cross => self.b0 & 0x20 != 0,
            GestureControl::Circle => self.b0 & 0x40 != 0,
            GestureControl::Triangle => self.b0 & 0x80 != 0,
            GestureControl::L1 => self.b1 & 0x01 != 0,
            GestureControl::R1 => self.b1 & 0x02 != 0,
            GestureControl::L2 => self.b1 & 0x04 != 0 || self.l2_analog
                >= TRIGGER_ANALOG_THRESHOLD,
            GestureControl::R2 => self.b1 & 0x08 != 0 || self.r2_analog
                >= TRIGGER_ANALOG_THRESHOLD,
            GestureControl::Create => self.b1 & 0x10 != 0,
            GestureControl::Options => self.b1 & 0x20 != 0,
            GestureControl::L3 => self.b1 & 0x40 != 0,
            GestureControl::R3 => self.b1 & 0x80 != 0,
            GestureControl::Ps => self.b2 & 0x01 != 0,
            GestureControl::Touchpad => self.b2 & 0x02 != 0,
            GestureControl::Mute => self.b2 & 0x04 != 0,
            GestureControl::DpadUp => self.dpad() == 0 || self.dpad() == 1 || self.dpad() == 7,
            GestureControl::DpadRight => 1 <= self.dpad() <= 3,
            GestureControl::DpadDown => 3 <= self.dpad() <= 5,
            GestureControl::DpadLeft => 5 <= self.dpad() <= 7,
        }
    }
}

impl Buttons {
    fn is_pressed(&self, c: GestureControl) -> (r: bool)
        ensures
            r == self.pressed(c),
    {
        let dpad: u8 = self.b0 & 0x0F;
        match c {
            GestureControl::Square => self.b0 & 0x10 != 0,
            GestureControl::Cross => self.b0 & 0x20 != 0,
            GestureControl::Circle => self.b0 & 0x40 != 0,
            GestureControl::Triangle => self.b0 & 0x80 != 0,
            GestureControl::L1 => self.b1 & 0x01 != 0,
            GestureControl::R1 => self.b1 & 0x02 != 0,
            GestureControl::L2 => self.b1 & 0x04 != 0 || self.l2_analog
                >= TRIGGER_ANALOG_THRESHOLD,
            GestureControl::R2 => self.b1 & 0x08 != 0 || self.r2_analog
                >= TRIGGER_ANALOG_THRESHOLD,
            GestureControl::Create => self.b1 & 0x10 != 0,
            GestureControl::Options => self.b1 & 0x20 != 0,
            GestureControl::L3 => self.b1 & 0x40 != 0,
            GestureControl::R3 => self.b1 & 0x80 != 0,
            GestureControl::Ps => self.b2 & 0x01 != 0,
            GestureControl::Touchpad => self.b2 & 0x02 != 0,
            GestureControl::Mute => self.b2 & 0x04 != 0,
            GestureControl::DpadUp => dpad == 0 || dpad == 1 || dpad == 7,
            GestureControl::DpadRight => 1 <= dpad && dpad <= 3,
            GestureControl::DpadDown => 3 <= dpad && dpad <= 5,
            GestureControl::DpadLeft => 5 <= dpad && dpad <= 7,
        }
    }

    /// Every pressed control.
    fn held(&self) -> (r: ControlSet)
        ensures
            forall|c: GestureControl| #[trigger] r@.contains(c) <==> self.pressed(c),
    {
        let mut held = ControlSet::new();
        let mut n: u32 = 0;
        while n < CONTROL_COUNT
            invariant
                n <= CONTROL_COUNT,
                forall|c: GestureControl| #[trigger]
                    held@.contains(c) <==> c.rank() < n && self.pressed(c),
            decreases CONTROL_COUNT - n,
        {
            let c = GestureControl::at_rank(n);
            let ghost before = held@;
            if self.is_pressed(c) {
                held.insert(c);
            }
            proof {
                assert forall|d: GestureControl| #[trigger]
                    held@.contains(d) <==> d.rank() < n + 1 && self.pressed(d) by {
                    gesture::lemma_rank_names(d);
                    gesture::lemma_rank_names(c);
                    assert(before.contains(d) <==> d.rank() < n && self.pressed(d));
                }
            }
            n = n + 1;
        }
        proof {
            assert forall|c: GestureControl| #[trigger] held@.contains(c) <==> self.pressed(c) by {
                gesture::lemma_rank_names(c);
            }
        }
        held
    }
}

/// Parse sticks/buttons from an input report.
///
/// `base` indexes the report-ID byte. Common payload starts at `base + 1`.
/// USB uses `base = 0`; Bluetooth `0x31` uses `base = 1`.
pub fn parse_report(buf: &[u8], base: usize) -> (r: PadSample)
    requires
        base <= usize::MAX - 10,
    ensures
        forall|c: GestureControl|
            #[trigger] r.held@.contains(c) <==> buttons_of(buf@, base as int).pressed(c),
        r.sticks.lx == axis_offset(byte_or(buf@, base + 1, 128)),
        r.sticks.ly == axis_offset(byte_or(buf@, base + 2, 128)),
        r.sticks.rx == axis_offset(byte_or(buf@, base + 3, 128)),
        r.sticks.ry == axis_offset(byte_or(buf@, base + 4, 128)),
        r.dpad_up == r.held@.contains(GestureControl::DpadUp),
        r.dpad_down == r.held@.contains(GestureControl::DpadDown),
        r.cross == r.held@.contains(GestureControl::Cross),
        r.circle == r.held@.contains(GestureControl::Circle),
        r.square == r.held@.contains(GestureControl::Square),
        r.triangle == r.held@.contains(GestureControl::Triangle),
        r.options == r.held@.contains(GestureControl::Options),
        r.l2 == r.held@.contains(GestureControl::L2),
        r.r2 == r.held@.contains(GestureControl::R2),
{
    let sticks = Sticks {
        lx: axis_u8(get_or(buf, base + 1, 128)),
        ly: axis_u8(get_or(buf, base + 2, 128)),
        rx: axis_u8(get_or(buf, base + 3, 128)),
        ry: axis_u8(get_or(buf, base + 4, 128)),
    };
    let buttons = Buttons {
        b0: get_or(buf, base + 8, 0),
        b1: get_or(buf, base + 9, 0),
        b2: get_or(buf, base + 10, 0),
        l2_analog: get_or(buf, base + 5, 0),
        r2_analog: get_or(buf, base + 6, 0),
    };
    assert(buttons == buttons_of(buf@, base as int));
    let held = buttons.held();
    PadSample {
        held,
        sticks,
        dpad_up: held.contains(GestureControl::DpadUp),
        dpad_down: held.contains(GestureControl::DpadDown),
        cross: held.contains(GestureControl::Cross),
        circle: held.contains(GestureControl::Circle),
        square: held.contains(GestureControl::Square),
        triangle: held.contains(GestureControl::Triangle),
        options: held.contains(GestureControl::Options),
        l2: held.contains(GestureControl::L2),
        r2: held.contains(GestureControl::R2),
    }
}

/// Opposite directions of the pad are never pressed together.
pub proof fn law_opposite_directions_exclude(b: Buttons)
    ensures
        !(b.pressed(GestureControl::DpadUp) && b.pressed(GestureControl::DpadDown)),
        !(b.pressed(GestureControl::DpadLeft) && b.pressed(GestureControl::DpadRight)),
{
}

} // verus!
