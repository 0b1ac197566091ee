//! Battery reading, pad de-duplication and Bluetooth power-off.
use crate::controller::crc;
use crate::controller::identity;
use crate::controller::identity::{Bus, HidNode};
use crate::controller::model;
use crate::controller::model::{Connection, ControllerKind, ControllerStatus, PowerState};
use crate::text;
use vstd::prelude::*;
use vstd::string::StringExecFns;

verus! {

pub const USB_REPORT_SIZE: usize = 64;

pub const BT_REPORT_SIZE: usize = 78;

pub const USB_POWER_OFFSET: usize = 53;

pub const BT_POWER_OFFSET: usize = 54;

pub const BT_REPORT_TRUNCATED: u8 = 0x01;

pub const BT_REPORT_FULL: u8 = 0x31;

pub const USB_REPORT_ID: u8 = 0x01;

pub const CALIBRATION_FEATURE_REPORT: u8 = 0x05;

pub const CALIBRATION_FEATURE_SIZE: usize = 41;

/// Bluetooth control feature report: 47 data bytes, 48 with the report id.
pub const BT_CONTROL_FEATURE_REPORT: u8 = 0x08;

pub const BT_CONTROL_FEATURE_SIZE: usize = 48;

/// Shorter size that some hosts accept.
pub const BT_CONTROL_FEATURE_SIZE_ALT: usize = 47;

pub const BT_CONTROL_FEATURE_SIZE_PADDED: usize = 64;

pub const BT_CONTROL_OFF: u8 = 0x02;

/// Feature-report checksum seeds in use.
pub const FEATURE_CRC32_SEED: u8 = 0xA3;

pub const FEATURE_CRC32_SEED_ALT: u8 = 0x53;

pub const MAX_POWER_LEVEL: u8 = 0x0A;

/// Lowest reporting bucket (mid-point 5% of 0-9%).
pub const LOW_BATTERY_PERCENT: u8 = 5;

/// How often an input report is awaited before a pad counts as silent.
pub const READ_ATTEMPTS: u8 = 6;

// ---------------------------------------------------------------------------
// Status
// ---------------------------------------------------------------------------

/// Status of a DualSense; its lightbar can be set, and it can be powered off over Bluetooth.
pub fn dualsense_status(
    index: usize,
    product: &'static str,
    connection: Connection,
    serial: String,
    percent: u8,
    state: PowerState,
) -> (r: ControllerStatus)
    ensures
        r@ == (model::StatusView {
            index: index as int,
            kind: ControllerKind::DualSense,
            product: product@,
            connection,
            serial: serial@,
            percent,
            state,
            supports_lightbar: true,
            supports_power_off: true,
        }),
{
    ControllerStatus {
        index,
        kind: ControllerKind::DualSense,
        product,
        connection,
        serial,
        percent,
        state,
        supports_lightbar: true,
        supports_power_off: true,
    }
}

/// Percentage of a reported level: the mid-point of its 10% bucket.
pub open spec fn level_percent(level: u8, state: PowerState) -> u8 {
    match state {
        PowerState::Complete => 100,
        PowerState::AbnormalVoltage
        | PowerState::AbnormalTemperature
        | PowerState::ChargingError => 0,
        PowerState::Discharging | PowerState::Charging | PowerState::Unknown => if level
            >= MAX_POWER_LEVEL {
            100
        } else {
            (level * 10 + 5) as u8
        },
    }
}

/// Batteries report in 11 coarse steps (0..=10), each mapped to the mid-point of its
/// 10% bucket: 0 is 0-9% (5%), 1 is 10-19% (15%), .., 9 is 90-99% (95%), 10/full is 100%.
pub fn percent_from_level(level: u8, state: PowerState) -> (r: u8)
    ensures
        r == level_percent(level, state),
        r <= 100,
{
    match state {
        PowerState::Complete => 100,
        PowerState::AbnormalVoltage
        | PowerState::AbnormalTemperature
        | PowerState::ChargingError => 0,
        PowerState::Discharging | PowerState::Charging | PowerState::Unknown => {
            if level >= MAX_POWER_LEVEL {
                100
            } else {
                level * 10 + 5
            }
        },
    }
}

/// A higher level never shows a lower percentage.
pub proof fn law_percent_grows_with_level(a: u8, b: u8, state: PowerState)
    requires
        a <= b,
    ensures
        level_percent(a, state) <= level_percent(b, state) <= 100,
{
}

// ---------------------------------------------------------------------------
// Reading
// ---------------------------------------------------------------------------

/// Battery data of one input report.
#[derive(Debug, Clone, Copy, PartialEq, Eq, Structural)]
pub struct BatteryReading {
    pub percent: u8,
    pub state: PowerState,
    pub connection: Connection,
}

/// What one input report amounts to.
#[derive(Debug, Clone, Copy, PartialEq, Eq, Structural)]
pub enum ReportOutcome {
    /// Nothing of use; wait for the next report.
    Retry,
    /// Short Bluetooth report: ask the pad for full ones, then wait for the next.
    RequestFull,
    Reading(BatteryReading),
    WrongId { got: u8, expected: u8 },
    TooShort { bytes: usize },
}

/// Size of an input report.
pub open spec fn report_size(connection: Connection) -> usize {
    match connection {
        Connection::Usb => USB_REPORT_SIZE,
        Connection::Bluetooth => BT_REPORT_SIZE,
    }
}

/// Place of the power byte in an input report.
pub open spec fn power_offset(connection: Connection) -> usize {
    match connection {
        Connection::Usb => USB_POWER_OFFSET,
        Connection::Bluetooth => BT_POWER_OFFSET,
    }
}

/// Id of an input report with battery data.
pub open spec fn report_id(connection: Connection) -> u8 {
    match connection {
        Connection::Usb => USB_REPORT_ID,
        Connection::Bluetooth => BT_REPORT_FULL,
    }
}

/// Smaller of two levels.
pub open spec fn capped_level(level: u8) -> u8 {
    if level <= MAX_POWER_LEVEL {
        level
    } else {
        MAX_POWER_LEVEL
    }
}

/// Reading in a power byte: the level in the low nibble, the state in the high one.
pub open spec fn power_reading(power: u8, connection: Connection) -> BatteryReading {
    let state = PowerState::of_nibble(power >> 4);
    BatteryReading {
        percent: level_percent(capped_level(power & 0x0F), state),
        state,
        connection,
    }
}

/// What a report of `n` bytes amounts to.
pub open spec fn outcome(
    connection: Connection,
    requested_full: bool,
    buf: Seq<u8>,
    n: int,
) -> ReportOutcome {
    if n == 0 {
        ReportOutcome::Retry
    } else if connection == Connection::Bluetooth && buf[0] == BT_REPORT_TRUNCATED {
        if requested_full {
            ReportOutcome::Retry
        } else {
            ReportOutcome::RequestFull
        }
    } else if buf[0] != report_id(connection) {
        ReportOutcome::WrongId { got: buf[0], expected: report_id(connection) }
    } else if n <= power_offset(connection) {
        ReportOutcome::TooShort { bytes: n as usize }
    } else {
        ReportOutcome::Reading(power_reading(buf[power_offset(connection) as int], connection))
    }
}

impl ReportOutcome {
    /// Message of a report that cannot be used.
    pub open spec fn complaint(self) -> Option<Seq<char>> {
        match self {
            ReportOutcome::WrongId { got, expected } => Some(
                "unexpected report id 0x"@ + text::hex2(got) + " (expected 0x"@ + text::hex2(
                    expected,
                ) + ")"@,
            ),
            ReportOutcome::TooShort { bytes } => Some(
                "input report too short ("@ + text::dec(bytes as nat) + " bytes)"@,
            ),
            _ => None,
        }
    }

    /// Message of a report that cannot be used.
    pub fn message(&self) -> (r: Option<String>)
        ensures
            match r {
                Some(m) => self.complaint() == Some(m@),
                None => self.complaint() is None,
            },
    {
        match *self {
            ReportOutcome::WrongId { got, expected } => {
                let mut m = text::own("unexpected report id 0x");
                text::push_hex2(&mut m, got);
                m.append(" (expected 0x");
                text::push_hex2(&mut m, expected);
                m.append(")");
                Some(m)
            },
            ReportOutcome::TooShort { bytes } => {
                let count = text::dec_text(bytes as u64);
                Some(text::cat3("input report too short (", count.as_str(), " bytes)"))
            },
            _ => None,
        }
    }
}

/// Message of a pad that never sent battery data.
pub fn timed_out_message() -> (r: String)
    ensures
        r@ == "timed out waiting for a DualSense input report with battery data"@,
{
    text::own("timed out waiting for a DualSense input report with battery data")
}

/// A battery reading under way. Pads stream input reports when awake; a silent pad
/// must fail fast, so only a few reports are awaited.
#[derive(Debug, Clone, Copy, PartialEq, Eq, Structural)]
pub struct BatteryRead {
    pub connection: Connection,
    pub reads: u8,
    pub requested_full: bool,
}

/// Name of a bus on which no pad is read.
pub open spec fn other_bus_label(bus: Bus) -> Seq<char> {
    match bus {
        Bus::Unknown => "Unknown"@,
        Bus::Usb => "Usb"@,
        Bus::Bluetooth => "Bluetooth"@,
        Bus::I2c => "I2c"@,
        Bus::Spi => "Spi"@,
    }
}

/// Connection over a bus.
pub open spec fn bus_connection(bus: Bus) -> Option<Connection> {
    match bus {
        Bus::Usb => Some(Connection::Usb),
        Bus::Bluetooth => Some(Connection::Bluetooth),
        _ => None,
    }
}

impl BatteryRead {
    /// Starts a reading over `bus`.
    pub fn begin(bus: Bus) -> (r: Result<BatteryRead, String>)
        ensures
            match r {
                Ok(b) => bus_connection(bus) == Some(b.connection) && b.reads == 0
                    && !b.requested_full,
                Err(m) => bus_connection(bus) is None && m@ == "unsupported connection type: "@
                    + other_bus_label(bus),
            },
    {
        let connection = match bus {
            Bus::Usb => Connection::Usb,
            Bus::Bluetooth => Connection::Bluetooth,
            Bus::Unknown => return Err(text::cat2("unsupported connection type: ", "Unknown")),
            Bus::I2c => return Err(text::cat2("unsupported connection type: ", "I2c")),
            Bus::Spi => return Err(text::cat2("unsupported connection type: ", "Spi")),
        };
        Ok(BatteryRead { connection, reads: 0, requested_full: false })
    }

    /// Size of the buffer to read the next report into.
    pub fn buffer_size(&self) -> (r: usize)
        ensures
            r == report_size(self.connection),
    {
        match self.connection {
            Connection::Usb => USB_REPORT_SIZE,
            Connection::Bluetooth => BT_REPORT_SIZE,
        }
    }

    /// Whether another report is awaited.
    pub fn may_read(&self) -> (r: bool)
        ensures
            r == (self.reads < READ_ATTEMPTS),
    {
        self.reads < READ_ATTEMPTS
    }

    /// Takes in a report of `n` bytes.
    pub fn on_report(&mut self, buf: &[u8], n: usize) -> (r: ReportOutcome)
        requires
            n <= buf@.len(),
            old(self).reads < READ_ATTEMPTS,
        ensures
            r == outcome(old(self).connection, old(self).requested_full, buf@, n as int),
            final(self).connection == old(self).connection,
            final(self).reads == old(self).reads + 1,
            final(self).requested_full == (old(self).requested_full || r
                == ReportOutcome::RequestFull),
    {
        self.reads = self.reads + 1;
        if n == 0 {
            return ReportOutcome::Retry;
        }
        let bluetooth = self.connection.is_bluetooth();
        if bluetooth && buf[0] == BT_REPORT_TRUNCATED {
            if self.requested_full {
                return ReportOutcome::Retry;
            }
            self.requested_full = true;
            return ReportOutcome::RequestFull;
        }
        let expected: u8 = if bluetooth {
            BT_REPORT_FULL
        } else {
            USB_REPORT_ID
        };
        let offset: usize = if bluetooth {
            BT_POWER_OFFSET
        } else {
            USB_POWER_OFFSET
        };
        if buf[0] != expected {
            return ReportOutcome::WrongId { got: buf[0], expected };
        }
        if n <= offset {
            return ReportOutcome::TooShort { bytes: n };
        }
        let power: u8 = buf[offset];
        let raw: u8 = power & 0x0F;
        let level: u8 = if raw <= MAX_POWER_LEVEL {
            raw
        } else {
            MAX_POWER_LEVEL
        };
        let state = PowerState::from_nibble(power >> 4);
        ReportOutcome::Reading(
            BatteryReading {
                percent: percent_from_level(level, state),
                state,
                connection: self.connection,
            },
        )
    }
}

/// The request for the calibration report, after which a Bluetooth pad sends full reports.
pub fn calibration_request() -> (r: Vec<u8>)
    ensures
        r@ == Seq::new(CALIBRATION_FEATURE_SIZE as nat, |i: int| 0u8).update(
            0,
            CALIBRATION_FEATURE_REPORT,
        ),
{
    let mut r: Vec<u8> = vec![0u8; CALIBRATION_FEATURE_SIZE];
    r.set(0, CALIBRATION_FEATURE_REPORT);
    r
}

/// A full reading is at most one request and `READ_ATTEMPTS` reports away: a pad is
/// asked for full reports at most once.
pub proof fn law_full_reports_are_requested_once(connection: Connection, buf: Seq<u8>, n: int)
    ensures
        outcome(connection, true, buf, n) != ReportOutcome::RequestFull,
{
}

// ---------------------------------------------------------------------------
// One pad on two buses
// ---------------------------------------------------------------------------

/// Serial of the `k`-th kept pad.
pub open spec fn kept_serial(s: Seq<model::StatusView>, kept: Seq<int>, k: int) -> Seq<char> {
    s[kept[k]].serial
}

/// Place in `kept` of the pad with `serial`, or `kept.len()`.
pub open spec fn place_of(s: Seq<model::StatusView>, kept: Seq<int>, serial: Seq<char>) -> int
    decreases kept.len(),
{
    if kept.len() == 0 {
        0
    } else if kept_serial(s, kept, 0) == serial {
        0
    } else {
        1 + place_of(s, kept.drop_first(), serial)
    }
}

/// Positions kept among the first `n` pads: each storable serial once, USB preferred,
/// pads without identity always.
pub open spec fn kept_pads(s: Seq<model::StatusView>, n: nat) -> Seq<int>
    decreases n,
{
    if n == 0 {
        seq![]
    } else {
        keep(s, kept_pads(s, (n - 1) as nat), n - 1)
    }
}

/// Positions kept once the pad at `i` was looked at.
pub open spec fn keep(s: Seq<model::StatusView>, kept: Seq<int>, i: int) -> Seq<int> {
    let at = place_of(s, kept, s[i].serial);
    if !identity::storable(s[i].serial) || at >= kept.len() {
        kept.push(i)
    } else if s[i].connection == Connection::Usb && s[kept[at]].connection != Connection::Usb {
        kept.update(at, i)
    } else {
        kept
    }
}

/// A place is the first one with the serial.
proof fn lemma_place_of(s: Seq<model::StatusView>, kept: Seq<int>, serial: Seq<char>)
    ensures
        0 <= place_of(s, kept, serial) <= kept.len(),
        place_of(s, kept, serial) < kept.len() ==> kept_serial(
            s,
            kept,
            place_of(s, kept, serial),
        ) == serial,
        forall|k: int|
            0 <= k < place_of(s, kept, serial) ==> #[trigger] kept_serial(s, kept, k) != serial,
    decreases kept.len(),
{
    if kept.len() > 0 && kept_serial(s, kept, 0) != serial {
        let rest = kept.drop_first();
        lemma_place_of(s, rest, serial);
        assert forall|k: int| 0 <= k < place_of(s, kept, serial) implies #[trigger] kept_serial(
            s,
            kept,
            k,
        ) != serial by {
            if k > 0 {
                assert(kept_serial(s, rest, k - 1) != serial);
            }
        }
        assert(forall|k: int| 0 < k < kept.len() ==> kept[k] == rest[k - 1]);
    }
}

proof fn lemma_place_is(s: Seq<model::StatusView>, kept: Seq<int>, serial: Seq<char>, at: int)
    requires
        0 <= at <= kept.len(),
        at < kept.len() ==> kept_serial(s, kept, at) == serial,
        forall|k: int| 0 <= k < at ==> #[trigger] kept_serial(s, kept, k) != serial,
    ensures
        place_of(s, kept, serial) == at,
{
    lemma_place_of(s, kept, serial);
    let p = place_of(s, kept, serial);
    if p < at {
        assert(kept_serial(s, kept, p) != serial);
    } else if at < p {
        assert(kept_serial(s, kept, at) != serial);
    }
}

/// Positions lie among the first `n` pads.
pub open spec fn positions_below(kept: Seq<int>, n: int) -> bool {
    forall|k: int| 0 <= k < kept.len() ==> 0 <= #[trigger] kept[k] < n
}

/// No storable serial is kept twice.
pub open spec fn serials_once(s: Seq<model::StatusView>, kept: Seq<int>) -> bool {
    forall|k: int, l: int|
        0 <= k < l < kept.len() && #[trigger] kept_serial(s, kept, k) == #[trigger] kept_serial(
            s,
            kept,
            l,
        ) ==> !identity::storable(kept_serial(s, kept, k))
}

/// Whether the pad at `i` is still represented: by a pad with its serial, over USB
/// when it is on USB itself.
pub open spec fn represented(s: Seq<model::StatusView>, kept: Seq<int>, i: int) -> bool {
    let at = place_of(s, kept, s[i].serial);
    &&& 0 <= at < kept.len()
    &&& s[kept[at]].serial == s[i].serial
    &&& s[i].connection == Connection::Usb ==> s[kept[at]].connection == Connection::Usb
}

proof fn lemma_keep_range(s: Seq<model::StatusView>, kept: Seq<int>, i: int)
    requires
        0 <= i < s.len(),
        positions_below(kept, i),
    ensures
        positions_below(keep(s, kept, i), i + 1),
{
    lemma_place_of(s, kept, s[i].serial);
    let next = keep(s, kept, i);
    assert forall|k: int| 0 <= k < next.len() implies 0 <= #[trigger] next[k] < i + 1 by {
        if k < kept.len() {
            assert(0 <= kept[k] < i);
        }
    }
}

proof fn lemma_keep_once(s: Seq<model::StatusView>, kept: Seq<int>, i: int)
    requires
        0 <= i < s.len(),
        serials_once(s, kept),
    ensures
        serials_once(s, keep(s, kept, i)),
{
    let serial = s[i].serial;
    lemma_place_of(s, kept, serial);
    let next = keep(s, kept, i);
    assert forall|k: int, l: int|
        0 <= k < l < next.len() && #[trigger] kept_serial(s, next, k) == #[trigger] kept_serial(
            s,
            next,
            l,
        ) implies !identity::storable(kept_serial(s, next, k)) by {
        assert(kept_serial(s, next, k) == kept_serial(s, kept, k));
        if l < kept.len() {
            assert(kept_serial(s, next, l) == kept_serial(s, kept, l));
        }
    }
}

proof fn lemma_keep_represents(s: Seq<model::StatusView>, kept: Seq<int>, i: int, j: int)
    requires
        0 <= i < s.len(),
        0 <= j <= i,
        identity::storable(s[j].serial),
        j < i ==> represented(s, kept, j),
    ensures
        represented(s, keep(s, kept, i), j),
{
    let serial = s[j].serial;
    let at = place_of(s, kept, s[i].serial);
    lemma_place_of(s, kept, s[i].serial);
    lemma_place_of(s, kept, serial);
    let next = keep(s, kept, i);
    let p = place_of(s, kept, serial);
    assert forall|k: int| 0 <= k < p implies #[trigger] kept_serial(s, next, k) != serial by {
        assert(kept_serial(s, kept, k) != serial);
    }
    lemma_place_is(s, next, serial, p);
}

/// What de-duplication keeps of the first `n` pads: positions among them, no storable
/// serial twice, and every storable serial still there, over USB when any of its pads is.
pub proof fn law_dedupe(s: Seq<model::StatusView>, n: nat)
    requires
        n <= s.len(),
    ensures
        positions_below(kept_pads(s, n), n as int),
        serials_once(s, kept_pads(s, n)),
        forall|i: int|
            0 <= i < n && identity::storable(s[i].serial) ==> #[trigger] represented(
                s,
                kept_pads(s, n),
                i,
            ),
    decreases n,
{
    if n > 0 {
        let m = (n - 1) as nat;
        law_dedupe(s, m);
        let kept = kept_pads(s, m);
        lemma_keep_range(s, kept, m as int);
        lemma_keep_once(s, kept, m as int);
        assert forall|i: int| 0 <= i < n && identity::storable(
            s[i].serial,
        ) implies #[trigger] represented(s, kept_pads(s, n), i) by {
            if i < m {
                assert(represented(s, kept, i));
            }
            lemma_keep_represents(s, kept, m as int, i);
        }
    }
}

/// Positions as a sequence of integers.
pub open spec fn positions(v: Seq<usize>) -> Seq<int> {
    Seq::new(v.len(), |i: int| v[i] as int)
}

fn find_kept(pads: &[ControllerStatus], kept: &Vec<usize>, serial: &str) -> (r: usize)
    requires
        positions_below(positions(kept@), pads@.len() as int),
    ensures
        r == place_of(model::statuses(pads@), positions(kept@), serial@),
        r <= kept@.len(),
{
    let ghost s = model::statuses(pads@);
    let ghost q = positions(kept@);
    let mut at: usize = 0;
    while at < kept.len()
        invariant
            at <= kept@.len(),
            s == model::statuses(pads@),
            q == positions(kept@),
            positions_below(q, pads@.len() as int),
            forall|k: int| 0 <= k < at ==> #[trigger] kept_serial(s, q, k) != serial@,
        decreases kept@.len() - at,
    {
        assert(0 <= q[at as int] < pads@.len());
        let pad = &pads[kept[at]];
        assert(kept_serial(s, q, at as int) == pad.serial@);
        if text::str_eq(pad.serial.as_str(), serial) {
            proof {
                lemma_place_is(s, q, serial@, at as int);
            }
            return at;
        }
        at = at + 1;
    }
    proof {
        lemma_place_is(s, q, serial@, at as int);
    }
    at
}

/// Positions of the pads to keep: USB and Bluetooth nodes of one pad collapse, USB wins.
pub fn dedupe_positions(pads: &[ControllerStatus]) -> (r: Vec<usize>)
    ensures
        positions(r@) == kept_pads(model::statuses(pads@), pads@.len()),
        positions_below(positions(r@), pads@.len() as int),
{
    let ghost s = model::statuses(pads@);
    let mut kept: Vec<usize> = Vec::new();
    let mut i: usize = 0;
    assert(positions(kept@) =~= kept_pads(s, 0));
    while i < pads.len()
        invariant
            i <= pads@.len(),
            s == model::statuses(pads@),
            positions(kept@) == kept_pads(s, i as nat),
            positions_below(positions(kept@), i as int),
        decreases pads@.len() - i,
    {
        let ghost before = positions(kept@);
        proof {
            lemma_keep_range(s, before, i as int);
        }
        let serial = pads[i].serial.as_str();
        let at: usize = find_kept(pads, &kept, serial);
        if !identity::is_storable_serial(serial) || at >= kept.len() {
            kept.push(i);
            assert(positions(kept@) =~= before.push(i as int));
        } else {
            assert(0 <= before[at as int] < i);
            if pads[i].connection.is_usb() && !pads[kept[at]].connection.is_usb() {
                kept.set(at, i);
                assert(positions(kept@) =~= before.update(at as int, i as int));
            }
        }
        assert(positions(kept@) == keep(s, before, i as int));
        i = i + 1;
    }
    kept
}

/// Pads at the given positions.
pub open spec fn selected(
    s: Seq<model::StatusView>,
    at: Seq<int>,
) -> Seq<model::StatusView> {
    Seq::new(at.len(), |i: int| s[at[i]])
}

/// Collapse the same physical pad enumerated on USB and Bluetooth (prefer USB).
pub fn dedupe_statuses(pads: &[ControllerStatus]) -> (r: Vec<ControllerStatus>)
    ensures
        model::statuses(r@) == selected(
            model::statuses(pads@),
            kept_pads(model::statuses(pads@), pads@.len()),
        ),
{
    let ghost s = model::statuses(pads@);
    let kept = dedupe_positions(pads);
    let ghost q = positions(kept@);
    let ghost want = selected(s, q);
    let mut r: Vec<ControllerStatus> = Vec::new();
    let mut i: usize = 0;
    while i < kept.len()
        invariant
            i <= kept@.len(),
            s == model::statuses(pads@),
            q == positions(kept@),
            want == selected(s, q),
            positions_below(q, pads@.len() as int),
            model::statuses(r@) == want.take(i as int),
        decreases kept@.len() - i,
    {
        assert(0 <= q[i as int] < pads@.len());
        let pad = pads[kept[i]].copy();
        let ghost before = model::statuses(r@);
        r.push(pad);
        assert(model::statuses(r@) =~= before.push(pad@));
        assert(want.take(i + 1) =~= want.take(i as int).push(pad@));
        i = i + 1;
    }
    assert(want.take(i as int) == want);
    r
}

// ---------------------------------------------------------------------------
// Power-off
// ---------------------------------------------------------------------------

/// Control report that powers a pad off, before its checksum is filled in.
pub open spec fn control_off_frame(size: nat) -> Seq<u8> {
    Seq::new(size, |i: int| 0u8).update(0, BT_CONTROL_FEATURE_REPORT).update(1, BT_CONTROL_OFF)
}

/// Control report of `size` bytes that powers a pad off. The checksum covers the seed
/// and everything except the final 4 bytes.
pub fn build_bt_control_off_report(size: usize, seed: u8) -> (r: Vec<u8>)
    requires
        size >= 4,
    ensures
        r@ == crc::sealed(
            control_off_frame(size as nat),
            crc::crc32(crc::checked_bytes(seed, control_off_frame(size as nat))),
        ),
{
    let mut buf: Vec<u8> = vec![0u8; size];
    buf.set(0, BT_CONTROL_FEATURE_REPORT);
    buf.set(1, BT_CONTROL_OFF);
    assert(buf@ =~= control_off_frame(size as nat));
    let sum = crc::report_crc(seed, buf.as_slice());
    crc::seal_report(buf, sum)
}

/// Whether power-off is tried on a node: any Bluetooth interface of a supported pad.
pub fn is_power_off_node(node: &HidNode) -> (r: bool)
    ensures
        r == (identity::dualsense_ids(node.vendor_id, node.product_id) && node.bus
            == Bus::Bluetooth),
{
    identity::is_dualsense_device(node) && matches!(node.bus, Bus::Bluetooth)
}

/// Positions among the first `n` identities that equal `target`.
pub open spec fn exact_matches(ids: Seq<Seq<char>>, target: Seq<char>, n: nat) -> Seq<int>
    decreases n,
{
    if n == 0 {
        seq![]
    } else if ids[n - 1] == target {
        exact_matches(ids, target, (n - 1) as nat).push(n - 1)
    } else {
        exact_matches(ids, target, (n - 1) as nat)
    }
}

/// Positions among the first `n` identities that tell nothing of the pad.
pub open spec fn unidentified(ids: Seq<Seq<char>>, target: Seq<char>, n: nat) -> Seq<int>
    decreases n,
{
    if n == 0 {
        seq![]
    } else if ids[n - 1] != target && !identity::storable(ids[n - 1]) {
        unidentified(ids, target, (n - 1) as nat).push(n - 1)
    } else {
        unidentified(ids, target, (n - 1) as nat)
    }
}

/// Order in which opened nodes are tried: exact matches, then nodes without identity.
pub fn power_off_candidates(ids: &[String], serial: &str) -> (r: Vec<usize>)
    ensures
        positions(r@) == exact_matches(
            text::views(ids@),
            identity::normalized(serial@),
            ids@.len(),
        ) + unidentified(text::views(ids@), identity::normalized(serial@), ids@.len()),
{
    let target = identity::normalize_identity(serial);
    let ghost iv = text::views(ids@);
    let mut matched: Vec<usize> = Vec::new();
    let mut unknown: Vec<usize> = Vec::new();
    let mut i: usize = 0;
    assert(positions(matched@) =~= exact_matches(iv, target@, 0));
    assert(positions(unknown@) =~= unidentified(iv, target@, 0));
    while i < ids.len()
        invariant
            i <= ids@.len(),
            iv == text::views(ids@),
            positions(matched@) == exact_matches(iv, target@, i as nat),
            positions(unknown@) == unidentified(iv, target@, i as nat),
        decreases ids@.len() - i,
    {
        let ghost a = positions(matched@);
        let ghost b = positions(unknown@);
        if text::str_eq(ids[i].as_str(), target.as_str()) {
            matched.push(i);
            assert(positions(matched@) =~= a.push(i as int));
        } else if !identity::is_storable_serial(ids[i].as_str()) {
            unknown.push(i);
            assert(positions(unknown@) =~= b.push(i as int));
        }
        i = i + 1;
    }
    let ghost a = positions(matched@);
    let ghost b = positions(unknown@);
    matched.append(&mut unknown);
    assert(positions(matched@) =~= a + b);
    matched
}

/// One attempt at powering a pad off.
#[derive(Debug, Clone, Copy, PartialEq, Eq, Structural)]
pub struct PowerOffAttempt {
    pub candidate: usize,
    pub seed: u8,
    pub size: usize,
}

/// Attempts for one candidate.
pub const ATTEMPTS_PER_CANDIDATE: usize = 6;

/// The `k`-th attempt: per candidate every seed, per seed every report size.
pub open spec fn nth_attempt(k: int) -> PowerOffAttempt {
    let r = k % 6;
    PowerOffAttempt {
        candidate: (k / 6) as usize,
        seed: if r < 3 {
            FEATURE_CRC32_SEED
        } else {
            FEATURE_CRC32_SEED_ALT
        },
        size: if r % 3 == 0 {
            BT_CONTROL_FEATURE_SIZE
        } else if r % 3 == 1 {
            BT_CONTROL_FEATURE_SIZE_ALT
        } else {
            BT_CONTROL_FEATURE_SIZE_PADDED
        },
    }
}

/// The attempt behind `tried` failed ones, if there are more.
pub fn next_power_off_attempt(candidates: usize, tried: usize) -> (r: Option<PowerOffAttempt>)
    ensures
        match r {
            Some(a) => tried < candidates * 6 && a == nth_attempt(tried as int) && a.candidate
                < candidates && a.size >= 4,
            None => tried >= candidates * 6,
        },
{
    let candidate: usize = tried / 6;
    if candidate >= candidates {
        return None;
    }
    let r: usize = tried % 6;
    let seed: u8 = if r < 3 {
        FEATURE_CRC32_SEED
    } else {
        FEATURE_CRC32_SEED_ALT
    };
    let size: usize = if r % 3 == 0 {
        BT_CONTROL_FEATURE_SIZE
    } else if r % 3 == 1 {
        BT_CONTROL_FEATURE_SIZE_ALT
    } else {
        BT_CONTROL_FEATURE_SIZE_PADDED
    };
    Some(PowerOffAttempt { candidate, seed, size })
}

/// Before power-off gives up, every candidate was tried with every seed and size.
pub proof fn law_power_off_tries_everything(candidates: int, candidate: int, seed: u8, size: usize)
    requires
        0 <= candidate < candidates <= usize::MAX,
        seed == FEATURE_CRC32_SEED || seed == FEATURE_CRC32_SEED_ALT,
        size == BT_CONTROL_FEATURE_SIZE || size == BT_CONTROL_FEATURE_SIZE_ALT || size
            == BT_CONTROL_FEATURE_SIZE_PADDED,
    ensures
        exists|k: int|
            0 <= k < candidates * 6 && #[trigger] nth_attempt(k) == (PowerOffAttempt {
                candidate: candidate as usize,
                seed,
                size,
            }),
{
    let a: int = if seed == FEATURE_CRC32_SEED {
        0
    } else {
        3
    };
    let b: int = if size == BT_CONTROL_FEATURE_SIZE {
        0
    } else if size == BT_CONTROL_FEATURE_SIZE_ALT {
        1
    } else {
        2
    };
    let k = candidate * 6 + a + b;
    assert(k / 6 == candidate);
    assert(k % 6 == a + b);
    assert(nth_attempt(k) == (PowerOffAttempt { candidate: candidate as usize, seed, size }));
}

/// Error of one failed attempt.
pub fn attempt_error(path: &str, a: &PowerOffAttempt, err: &str) -> (r: String)
    ensures
        r@ == path@ + " size="@ + text::dec(a.size as nat) + " seed=0x"@ + text::hex2(a.seed)
            + ": "@ + err@,
{
    let mut m = text::own(path);
    m.append(" size=");
    text::push_dec(&mut m, a.size as u64);
    m.append(" seed=0x");
    text::push_hex2(&mut m, a.seed);
    m.append(": ");
    m.append(err);
    m
}

/// Error when no node of the pad was found.
pub fn power_off_missing_error(serial: &str) -> (r: String)
    ensures
        r@ == "Bluetooth controller "@ + serial@ + " not found (power-off is Bluetooth-only)"@,
{
    text::cat3("Bluetooth controller ", serial, " not found (power-off is Bluetooth-only)")
}

/// Error when every attempt failed; `errors` holds theirs.
pub fn power_off_error(errors: &[String]) -> (r: String)
    ensures
        r@ == "power-off feature report failed after "@ + text::dec(errors@.len())
            + " attempt(s): "@ + if errors@.len() == 0 {
            "no attempts"@
        } else {
            errors@.last()@
        },
{
    let mut m = text::own("power-off feature report failed after ");
    text::push_dec(&mut m, errors.len() as u64);
    m.append(" attempt(s): ");
    if errors.len() == 0 {
        m.append("no attempts");
    } else {
        m.append(errors[errors.len() - 1].as_str());
    }
    m
}

} // verus!
