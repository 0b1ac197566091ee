//! Hardware-neutral controller status types.
use crate::text;
use vstd::prelude::*;

verus! {

/// Family of gamepad a status describes.
#[derive(Debug, Clone, Copy, PartialEq, Eq, Hash, Structural)]
pub enum ControllerKind {
    DualSense,
}

impl Default for ControllerKind {
    fn default() -> (r: Self)
        ensures
            r == ControllerKind::DualSense,
    {
        ControllerKind::DualSense
    }
}

impl ControllerKind {
    /// Name of the family.
    pub open spec fn label(self) -> Seq<char> {
        match self {
            ControllerKind::DualSense => "DualSense"@,
        }
    }

    /// Name of the family.
    pub fn as_str(self) -> (r: &'static str)
        ensures
            r@ == self.label(),
    {
        match self {
            ControllerKind::DualSense => "DualSense",
        }
    }
}

/// How the pad is attached to the host.
#[derive(Debug, Clone, Copy, PartialEq, Eq, Hash, Structural)]
pub enum Connection {
    Usb,
    Bluetooth,
}

impl Connection {
    /// Name shown to the reader.
    pub open spec fn label(self) -> Seq<char> {
        match self {
            Connection::Usb => "USB"@,
            Connection::Bluetooth => "Bluetooth"@,
        }
    }

    /// Name shown to the reader.
    pub fn as_str(self) -> (r: &'static str)
        ensures
            r@ == self.label(),
    {
        match self {
            Connection::Usb => "USB",
            Connection::Bluetooth => "Bluetooth",
        }
    }

    pub fn is_usb(self) -> (r: bool)
        ensures
            r == (self == Connection::Usb),
    {
        matches!(self, Connection::Usb)
    }

    pub fn is_bluetooth(self) -> (r: bool)
        ensures
            r == (self == Connection::Bluetooth),
    {
        matches!(self, Connection::Bluetooth)
    }

    /// Connection that `label` names.
    pub open spec fn labelled(label: Seq<char>) -> Option<Connection> {
        if label == "USB"@ || label == "usb"@ {
            Some(Connection::Usb)
        } else if label == "Bluetooth"@ || label == "bluetooth"@ {
            Some(Connection::Bluetooth)
        } else {
            None
        }
    }

    /// Connection that `label` names.
    pub fn from_label(label: &str) -> (r: Option<Self>)
        ensures
            r == Self::labelled(label@),
    {
        if text::str_eq(label, "USB") || text::str_eq(label, "usb") {
            Some(Connection::Usb)
        } else if text::str_eq(label, "Bluetooth") || text::str_eq(label, "bluetooth") {
            Some(Connection::Bluetooth)
        } else {
            None
        }
    }
}

/// Every connection is named by its own label.
pub proof fn law_label_names_connection(c: Connection)
    ensures
        Connection::labelled(c.label()) == Some(c),
{
    reveal_strlit("USB");
    reveal_strlit("usb");
    reveal_strlit("Bluetooth");
    assert("Bluetooth"@.len() != "USB"@.len());
    assert("Bluetooth"@.len() != "usb"@.len());
}

/// Coarse battery state.
#[derive(Debug, Clone, Copy, PartialEq, Eq, Structural)]
pub enum PowerState {
    Discharging,
    Charging,
    Complete,
    AbnormalVoltage,
    AbnormalTemperature,
    ChargingError,
    Unknown,
}

impl PowerState {
    /// State that a nibble of a power byte stands for.
    pub open spec fn of_nibble(value: u8) -> PowerState {
        if value == 0x00 {
            PowerState::Discharging
        } else if value == 0x01 {
            PowerState::Charging
        } else if value == 0x02 {
            PowerState::Complete
        } else if value == 0x0A {
            PowerState::AbnormalVoltage
        } else if value == 0x0B {
            PowerState::AbnormalTemperature
        } else if value == 0x0F {
            PowerState::ChargingError
        } else {
            PowerState::Unknown
        }
    }

    /// State that a nibble of a power byte stands for.
    pub fn from_nibble(value: u8) -> (r: Self)
        ensures
            r == Self::of_nibble(value),
    {
        match value {
            0x00 => PowerState::Discharging,
            0x01 => PowerState::Charging,
            0x02 => PowerState::Complete,
            0x0A => PowerState::AbnormalVoltage,
            0x0B => PowerState::AbnormalTemperature,
            0x0F => PowerState::ChargingError,
            _ => PowerState::Unknown,
        }
    }

    /// Name shown to the reader.
    pub open spec fn label(self) -> Seq<char> {
        match self {
            PowerState::Discharging => "discharging"@,
            PowerState::Charging => "charging"@,
            PowerState::Complete => "fully charged"@,
            PowerState::AbnormalVoltage => "abnormal voltage"@,
            PowerState::AbnormalTemperature => "abnormal temperature"@,
            PowerState::ChargingError => "charging error"@,
            PowerState::Unknown => "unknown"@,
        }
    }

    /// Name shown to the reader.
    pub fn as_str(self) -> (r: &'static str)
        ensures
            r@ == self.label(),
    {
        match self {
            PowerState::Discharging => "discharging",
            PowerState::Charging => "charging",
            PowerState::Complete => "fully charged",
            PowerState::AbnormalVoltage => "abnormal voltage",
            PowerState::AbnormalTemperature => "abnormal temperature",
            PowerState::ChargingError => "charging error",
            PowerState::Unknown => "unknown",
        }
    }

    pub fn is_discharging(self) -> (r: bool)
        ensures
            r == (self == PowerState::Discharging),
    {
        matches!(self, PowerState::Discharging)
    }
}

/// What is known of one connected pad.
#[derive(Debug, Clone)]
pub struct ControllerStatus {
    pub index: usize,
    pub kind: ControllerKind,
    pub product: &'static str,
    pub connection: Connection,
    pub serial: String,
    pub percent: u8,
    pub state: PowerState,
    pub supports_lightbar: bool,
    pub supports_power_off: bool,
}

/// Model of [`ControllerStatus`].
#[verifier::ext_equal]
pub struct StatusView {
    pub index: int,
    pub kind: ControllerKind,
    pub product: Seq<char>,
    pub connection: Connection,
    pub serial: Seq<char>,
    pub percent: u8,
    pub state: PowerState,
    pub supports_lightbar: bool,
    pub supports_power_off: bool,
}

impl View for ControllerStatus {
    type V = StatusView;

    open spec fn view(&self) -> StatusView {
        StatusView {
            index: self.index as int,
            kind: self.kind,
            product: self.product@,
            connection: self.connection,
            serial: self.serial@,
            percent: self.percent,
            state: self.state,
            supports_lightbar: self.supports_lightbar,
            supports_power_off: self.supports_power_off,
        }
    }
}

/// Models of a list of statuses.
pub open spec fn statuses(v: Seq<ControllerStatus>) -> Seq<StatusView> {
    Seq::new(v.len(), |i: int| v[i]@)
}

impl StatusView {
    /// Low battery while discharging.
    pub open spec fn low_battery(self, threshold: u8) -> bool {
        self.percent <= threshold && self.state == PowerState::Discharging
    }
}

impl ControllerStatus {
    /// Low battery while discharging (toast, orange pulse, popup label).
    pub fn is_low_battery(&self, threshold: u8) -> (r: bool)
        ensures
            r == self@.low_battery(threshold),
    {
        self.percent <= threshold && self.state.is_discharging()
    }

    /// Copy of the status.
    pub fn copy(&self) -> (r: Self)
        ensures
            r@ == self@,
            r == *self,
    {
        ControllerStatus {
            index: self.index,
            kind: self.kind,
            product: self.product,
            connection: self.connection,
            serial: self.serial.clone(),
            percent: self.percent,
            state: self.state,
            supports_lightbar: self.supports_lightbar,
            supports_power_off: self.supports_power_off,
        }
    }
}

} // verus!
