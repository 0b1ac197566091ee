//! Driver registry: which family serves a HID node.
use crate::controller::identity;
use crate::controller::identity::HidNode;
use crate::controller::input;
use crate::controller::input::{parse_report, PadSample};
use crate::controller::model::{Connection, ControllerKind};
use crate::gesture::GestureControl;
use vstd::prelude::*;

verus! {

/// Operations of the DualSense family.
#[derive(Debug, Clone, Copy, PartialEq, Eq, Structural)]
pub struct DualSenseDriver {}

/// Place of the report id in an input report.
pub open spec fn report_base(bus: Connection) -> int {
    match bus {
        Connection::Usb => 0,
        Connection::Bluetooth => 1,
    }
}

impl DualSenseDriver {
    pub fn kind(&self) -> (r: ControllerKind)
        ensures
            r == ControllerKind::DualSense,
    {
        ControllerKind::DualSense
    }

    /// Any interface of a pad of the family.
    pub fn matches(&self, node: &HidNode) -> (r: bool)
        ensures
            r == identity::dualsense_ids(node.vendor_id, node.product_id),
    {
        identity::is_dualsense_device(node)
    }

    /// Gamepad usage interface used for battery / input (not vendor-only nodes).
    pub fn matches_gamepad(&self, node: &HidNode) -> (r: bool)
        ensures
            r == node.is_gamepad(),
    {
        identity::is_dualsense_gamepad(node)
    }

    /// Controls of an input report that came over `bus`.
    pub fn parse_input(&self, buf: &[u8], bus: Connection) -> (r: PadSample)
        ensures
            forall|c: GestureControl| #[trigger]
                r.held@.contains(c) <==> input::buttons_of(buf@, report_base(bus)).pressed(c),
            r.sticks.ly == input::axis_offset(input::byte_or(buf@, report_base(bus) + 2, 128)),
            r.sticks.ry == input::axis_offset(input::byte_or(buf@, report_base(bus) + 4, 128)),
            r.sticks.lx == input::axis_offset(input::byte_or(buf@, report_base(bus) + 1, 128)),
            r.sticks.rx == input::axis_offset(input::byte_or(buf@, report_base(bus) + 3, 128)),
            r.dpad_up == r.held@.contains(GestureControl::DpadUp),
            r.dpad_down == r.held@.contains(GestureControl::DpadDown),
            r.cross == r.held@.contains(GestureControl::Cross),
            r.circle == r.held@.contains(GestureControl::Circle),
            r.square == r.held@.contains(GestureControl::Square),
            r.triangle == r.held@.contains(GestureControl::Triangle),
            r.options == r.held@.contains(GestureControl::Options),
            r.l2 == r.held@.contains(GestureControl::L2),
            r.r2 == r.held@.contains(GestureControl::R2),
    {
        let base: usize = match bus {
            Connection::Usb => 0,
            Connection::Bluetooth => 1,
        };
        parse_report(buf, base)
    }
}

/// Registered families.
#[derive(Debug, Clone, Copy, PartialEq, Eq, Structural)]
pub struct DriverRegistry {
    pub dualsense: DualSenseDriver,
}

/// The registry of every supported family.
pub fn registry() -> (r: DriverRegistry)
    ensures
        r == (DriverRegistry { dualsense: DualSenseDriver {  } }),
{
    DriverRegistry { dualsense: DualSenseDriver {  } }
}

impl DriverRegistry {
    /// First registered driver that matches this HID node (any interface).
    pub fn for_device(&self, node: &HidNode) -> (r: Option<DualSenseDriver>)
        ensures
            r == if identity::dualsense_ids(node.vendor_id, node.product_id) {
                Some(self.dualsense)
            } else {
                None
            },
    {
        if self.dualsense.matches(node) {
            Some(self.dualsense)
        } else {
            None
        }
    }

    /// First registered driver that matches the gamepad interface.
    pub fn for_gamepad(&self, node: &HidNode) -> (r: Option<DualSenseDriver>)
        ensures
            r == if node.is_gamepad() {
                Some(self.dualsense)
            } else {
                None
            },
    {
        if self.dualsense.matches_gamepad(node) {
            Some(self.dualsense)
        } else {
            None
        }
    }

    /// Driver that writes the lightbar behind this node.
    pub fn lightbar_for(&self, node: &HidNode) -> (r: Option<DualSenseDriver>)
        ensures
            r == if identity::dualsense_ids(node.vendor_id, node.product_id) {
                Some(self.dualsense)
            } else {
                None
            },
    {
        if self.dualsense.matches_gamepad(node) || self.dualsense.matches(node) {
            Some(self.dualsense)
        } else {
            None
        }
    }

    /// Driver that powers off pads of a family.
    pub fn power_off_for_kind(&self, kind: ControllerKind) -> (r: Option<DualSenseDriver>)
        ensures
            r == Some(self.dualsense),
    {
        match kind {
            ControllerKind::DualSense => Some(self.dualsense),
        }
    }

    /// Driver of a family.
    pub fn driver_for_kind(&self, kind: ControllerKind) -> (r: Option<DualSenseDriver>)
        ensures
            r == Some(self.dualsense),
    {
        match kind {
            ControllerKind::DualSense => Some(self.dualsense),
        }
    }
}

} // verus!
