//! Laws on the bytes that pads send and are sent: each report is written out as a pad writes it,
//! and read back.
use crate::controller::battery;
use crate::controller::battery::{BatteryReading, ReportOutcome};
use crate::controller::crc;
use crate::controller::identity;
use crate::controller::identity::Bus;
use crate::controller::input;
use crate::controller::input::Buttons;
use crate::controller::lightbar;
use crate::controller::lightbar::{LightbarWrite, Rgb};
use crate::controller::model::{Connection, PowerState};
use crate::gesture::GestureControl;
use crate::text;
use vstd::prelude::*;

verus! {

// ---------------------------------------------------------------------------
// Battery
// ---------------------------------------------------------------------------

/// A state as a pad numbers it.
pub open spec fn state_number(state: PowerState) -> Option<u8> {
    match state {
        PowerState::Discharging => Some(0),
        PowerState::Charging => Some(1),
        PowerState::Complete => Some(2),
        PowerState::AbnormalVoltage => Some(10),
        PowerState::AbnormalTemperature => Some(11),
        PowerState::ChargingError => Some(15),
        PowerState::Unknown => None,
    }
}

/// A power byte: the number of the state, then the level.
pub open spec fn power_byte(number: u8, level: u8) -> u8 {
    (16 * number + level) as u8
}

proof fn lemma_nibbles(number: u8, level: u8)
    requires
        number < 16,
        level < 16,
    ensures
        power_byte(number, level) >> 4 == number,
        power_byte(number, level) & 0x0F == level,
{
    let b = power_byte(number, level);
    assert(b >> 4 == b / 16) by (bit_vector);
    assert(b & 0x0F == b % 16) by (bit_vector);
}

/// A pad's state is read from the byte it writes for it; a number that stands for no state
/// reads as unknown.
pub proof fn law_states_read_back(state: PowerState, level: u8, connection: Connection)
    requires
        level < 16,
    ensures
        state_number(state) matches Some(n) ==> battery::power_reading(
            power_byte(n, level),
            connection,
        ).state == state,
        forall|n: u8|
            n < 16 && (forall|s: PowerState| #[trigger] state_number(s) != Some(n)) ==> (
            #[trigger] battery::power_reading(power_byte(n, level), connection)).state
                == PowerState::Unknown,
{
    if let Some(n) = state_number(state) {
        lemma_nibbles(n, level);
    }
    assert forall|n: u8|
        n < 16 && (forall|s: PowerState| #[trigger] state_number(s) != Some(n)) implies (
    #[trigger] battery::power_reading(power_byte(n, level), connection)).state
        == PowerState::Unknown by {
        lemma_nibbles(n, level);
        assert(state_number(PowerState::Discharging) != Some(n));
        assert(state_number(PowerState::Charging) != Some(n));
        assert(state_number(PowerState::Complete) != Some(n));
        assert(state_number(PowerState::AbnormalVoltage) != Some(n));
        assert(state_number(PowerState::AbnormalTemperature) != Some(n));
        assert(state_number(PowerState::ChargingError) != Some(n));
    }
}

/// A level from 0 to 9 reads as the middle of its tenth, ten and above as full; a pad that
/// reports itself full is at 100 whatever its level, and one that reports a fault at 0.
pub proof fn law_levels_read_as_percent(state: PowerState, level: u8, connection: Connection)
    requires
        level < 16,
        state != PowerState::Unknown,
    ensures
        ({
            let r = battery::power_reading(power_byte(state_number(state)->0, level), connection);
            let running = state == PowerState::Discharging || state == PowerState::Charging;
            &&& r.connection == connection
            &&& running && level < 10 ==> 10 * level < r.percent < 10 * (level + 1) && r.percent
                - 10 * level == 10 * (level + 1) - r.percent
            &&& running && level >= 10 ==> r.percent == 100
            &&& state == PowerState::Complete ==> r.percent == 100
            &&& !running && state != PowerState::Complete ==> r.percent == 0
        }),
{
    lemma_nibbles(state_number(state)->0, level);
}

/// What reads a report: over USB the byte at 53 behind id 1, over Bluetooth the byte at 54
/// behind id 0x31. A report that ends before its power byte, or has another id, is no reading,
/// and no other byte of it matters.
pub proof fn law_reading_takes_the_power_byte(
    connection: Connection,
    requested: bool,
    buf: Seq<u8>,
    n: int,
)
    requires
        0 <= n <= buf.len(),
    ensures
        ({
            let at: int = if connection == Connection::Usb {
                53
            } else {
                54
            };
            let id: u8 = if connection == Connection::Usb {
                0x01
            } else {
                0x31
            };
            if n > at && buf[0] == id {
                battery::outcome(connection, requested, buf, n) == ReportOutcome::Reading(
                    battery::power_reading(buf[at], connection),
                )
            } else {
                !(battery::outcome(connection, requested, buf, n) is Reading)
            }
        }),
{
}

/// A short Bluetooth report (id 1) makes the pad be asked for full ones, the first time only;
/// an empty report asks for nothing. Over USB nobody is asked.
pub proof fn law_short_report_asks_once(
    connection: Connection,
    requested: bool,
    buf: Seq<u8>,
    n: int,
)
    requires
        0 <= n <= buf.len(),
    ensures
        battery::outcome(connection, requested, buf, n) == ReportOutcome::RequestFull <==> n > 0
            && connection == Connection::Bluetooth && buf[0] == 1 && !requested,
        battery::outcome(connection, requested, buf, n) == ReportOutcome::Retry <==> n == 0 || (
        connection == Connection::Bluetooth && buf[0] == 1 && requested),
        battery::outcome(connection, requested, buf, n) matches ReportOutcome::TooShort { bytes }
            ==> bytes as int == n || n > usize::MAX,
        battery::outcome(connection, requested, buf, n) matches ReportOutcome::WrongId {
            got,
            expected,
        } ==> got == buf[0] && got != expected,
{
}

// ---------------------------------------------------------------------------
// Buttons
// ---------------------------------------------------------------------------

/// A bit of a byte.
pub open spec fn on(b: bool, weight: u8) -> u8 {
    if b {
        weight
    } else {
        0
    }
}

/// The number that a pad writes for a direction, clockwise from up; 8 is released.
pub open spec fn direction_number(up: bool, right: bool, down: bool, left: bool) -> u8 {
    if up && !right && !left {
        0
    } else if up && right {
        1
    } else if right && !up && !down {
        2
    } else if right && down {
        3
    } else if down && !right && !left {
        4
    } else if down && left {
        5
    } else if left && !up && !down {
        6
    } else if up && left {
        7
    } else {
        8
    }
}

/// Directions that a pad can report: no two opposite ones.
pub open spec fn reportable(held: Set<GestureControl>) -> bool {
    &&& !(held.contains(GestureControl::DpadUp) && held.contains(GestureControl::DpadDown))
    &&& !(held.contains(GestureControl::DpadLeft) && held.contains(GestureControl::DpadRight))
}

/// Byte `i` behind the id of the report that a pad sends while `held` is pressed, without the
/// travel of its triggers; `rest` is what stands in the other bytes.
pub open spec fn sent_byte(held: Set<GestureControl>, rest: Seq<u8>, i: int) -> u8 {
    if i == 8 {
        direction_and_four(
            direction_number(
                held.contains(GestureControl::DpadUp),
                held.contains(GestureControl::DpadRight),
                held.contains(GestureControl::DpadDown),
                held.contains(GestureControl::DpadLeft),
            ),
            held.contains(GestureControl::Square),
            held.contains(GestureControl::Cross),
            held.contains(GestureControl::Circle),
            held.contains(GestureControl::Triangle),
        )
    } else if i == 9 {
        eight(
            held.contains(GestureControl::L1),
            held.contains(GestureControl::R1),
            held.contains(GestureControl::L2),
            held.contains(GestureControl::R2),
            held.contains(GestureControl::Create),
            held.contains(GestureControl::Options),
            held.contains(GestureControl::L3),
            held.contains(GestureControl::R3),
        )
    } else if i == 10 {
        eight(
            held.contains(GestureControl::Ps),
            held.contains(GestureControl::Touchpad),
            held.contains(GestureControl::Mute),
            false,
            false,
            false,
            false,
            false,
        )
    } else {
        rest[i]
    }
}

/// A byte made of eight bits.
pub open spec fn eight(
    a: bool,
    b: bool,
    c: bool,
    d: bool,
    e: bool,
    f: bool,
    g: bool,
    h: bool,
) -> u8 {
    (on(a, 1) + on(b, 2) + on(c, 4) + on(d, 8) + on(e, 16) + on(f, 32) + on(g, 64) + on(
        h,
        128,
    )) as u8
}

proof fn lemma_eight(a: bool, b: bool, c: bool, d: bool, e: bool, f: bool, g: bool, h: bool)
    by (bit_vector)
    ensures
        eight(a, b, c, d, e, f, g, h) & 0x01 != 0 <==> a,
        eight(a, b, c, d, e, f, g, h) & 0x02 != 0 <==> b,
        eight(a, b, c, d, e, f, g, h) & 0x04 != 0 <==> c,
        eight(a, b, c, d, e, f, g, h) & 0x08 != 0 <==> d,
        eight(a, b, c, d, e, f, g, h) & 0x10 != 0 <==> e,
        eight(a, b, c, d, e, f, g, h) & 0x20 != 0 <==> f,
        eight(a, b, c, d, e, f, g, h) & 0x40 != 0 <==> g,
        eight(a, b, c, d, e, f, g, h) & 0x80 != 0 <==> h,
{
}

/// A byte made of a direction and four bits.
pub open spec fn direction_and_four(n: u8, e: bool, f: bool, g: bool, h: bool) -> u8 {
    (n + on(e, 16) + on(f, 32) + on(g, 64) + on(h, 128)) as u8
}

proof fn lemma_direction_and_four(n: u8, e: bool, f: bool, g: bool, h: bool)
    by (bit_vector)
    requires
        n < 16,
    ensures
        direction_and_four(n, e, f, g, h) & 0x0F == n,
        direction_and_four(n, e, f, g, h) & 0x10 != 0 <==> e,
        direction_and_four(n, e, f, g, h) & 0x20 != 0 <==> f,
        direction_and_four(n, e, f, g, h) & 0x40 != 0 <==> g,
        direction_and_four(n, e, f, g, h) & 0x80 != 0 <==> h,
{
}

/// The controls that a report shows are those that were held when the pad sent it, wherever the
/// report begins and whatever else it holds, while the triggers travel less than 30 steps.
pub proof fn law_held_controls_are_read(
    held: Set<GestureControl>,
    rest: Seq<u8>,
    buf: Seq<u8>,
    base: int,
    c: GestureControl,
)
    requires
        base >= 0,
        buf.len() >= base + 11,
        rest.len() >= 11,
        reportable(held),
        rest[5] < 30,
        rest[6] < 30,
        forall|i: int| 1 <= i < 11 ==> #[trigger] buf[base + i] == sent_byte(held, rest, i),
    ensures
        input::buttons_of(buf, base).pressed(c) == held.contains(c),
{
    let b = input::buttons_of(buf, base);
    assert(buf[base + 8] == sent_byte(held, rest, 8));
    assert(buf[base + 9] == sent_byte(held, rest, 9));
    assert(buf[base + 10] == sent_byte(held, rest, 10));
    assert(buf[base + 5] == sent_byte(held, rest, 5));
    assert(buf[base + 6] == sent_byte(held, rest, 6));
    let n = direction_number(
        held.contains(GestureControl::DpadUp),
        held.contains(GestureControl::DpadRight),
        held.contains(GestureControl::DpadDown),
        held.contains(GestureControl::DpadLeft),
    );
    lemma_direction_and_four(
        n,
        held.contains(GestureControl::Square),
        held.contains(GestureControl::Cross),
        held.contains(GestureControl::Circle),
        held.contains(GestureControl::Triangle),
    );
    lemma_eight(
        held.contains(GestureControl::L1),
        held.contains(GestureControl::R1),
        held.contains(GestureControl::L2),
        held.contains(GestureControl::R2),
        held.contains(GestureControl::Create),
        held.contains(GestureControl::Options),
        held.contains(GestureControl::L3),
        held.contains(GestureControl::R3),
    );
    lemma_eight(
        held.contains(GestureControl::Ps),
        held.contains(GestureControl::Touchpad),
        held.contains(GestureControl::Mute),
        false,
        false,
        false,
        false,
        false,
    );
}

/// A trigger counts as pressed from 30 steps of travel on, at its own byte (5 for the left one,
/// 6 for the right one), also where its button bit is not set; the travel of one trigger presses
/// nothing else.
pub proof fn law_trigger_travel_presses(buf: Seq<u8>, base: int, travel: u8, c: GestureControl)
    requires
        base >= 0,
        buf.len() >= base + 11,
    ensures
        input::buttons_of(buf.update(base + 5, travel), base).pressed(GestureControl::L2) == (travel
            >= 30 || input::buttons_of(buf.update(base + 5, 0), base).pressed(GestureControl::L2)),
        input::buttons_of(buf.update(base + 6, travel), base).pressed(GestureControl::R2) == (travel
            >= 30 || input::buttons_of(buf.update(base + 6, 0), base).pressed(GestureControl::R2)),
        c != GestureControl::L2 ==> input::buttons_of(buf.update(base + 5, travel), base).pressed(c)
            == input::buttons_of(buf, base).pressed(c),
        c != GestureControl::R2 ==> input::buttons_of(buf.update(base + 6, travel), base).pressed(c)
            == input::buttons_of(buf, base).pressed(c),
{
}

/// Nothing is pressed in a report that ends before its buttons, but for the direction that an
/// all-zero byte stands for.
pub proof fn law_short_report_presses_nothing(buf: Seq<u8>, base: int, c: GestureControl)
    requires
        base >= 0,
        buf.len() <= base + 5,
    ensures
        input::buttons_of(buf, base).pressed(c) ==> c == GestureControl::DpadUp,
{
    lemma_direction_and_four(0, false, false, false, false);
    lemma_eight(false, false, false, false, false, false, false, false);
}

/// A stick at rest (128) reads as no offset, its ends as full travel, and more travel reads as
/// more offset; an axis that a report does not hold is at rest.
pub proof fn law_sticks_rest_in_the_middle(a: u8, b: u8, buf: Seq<u8>, i: int)
    ensures
        input::axis_offset(128) == 0,
        input::axis_offset(0) == -128,
        input::axis_offset(255) == 127,
        input::axis_offset(a) - input::axis_offset(b) == a - b,
        i >= buf.len() ==> input::axis_offset(input::byte_or(buf, i, 128)) == 0,
{
}

// ---------------------------------------------------------------------------
// Lightbar
// ---------------------------------------------------------------------------

/// The common part of an output report.
pub open spec fn payload(w: LightbarWrite, bluetooth: bool, tag: u8) -> Seq<u8> {
    if bluetooth {
        lightbar::bt_report(w, tag).skip(3)
    } else {
        lightbar::usb_report(w).skip(1)
    }
}

/// A color is at bytes 44 to 46 of the payload, red, green, blue, with the lightbar flag (4) at
/// byte 1; nothing else of the payload is set. A claim sets bytes 38 and 41 to 2, and nothing
/// else.
pub proof fn law_payload_holds_the_write(
    w: LightbarWrite,
    bluetooth: bool,
    tag: u8,
    j: int,
)
    requires
        0 <= j < 62,
    ensures
        ({
            let p = payload(w, bluetooth, tag);
            match w {
                LightbarWrite::Color(c) => {
                    &&& p[44] == c.r && p[45] == c.g && p[46] == c.b && p[1] == 4
                    &&& !(44 <= j <= 46) && j != 1 ==> p[j] == 0
                },
                LightbarWrite::Claim => {
                    &&& p[38] == 2 && p[41] == 2
                    &&& j != 38 && j != 41 ==> p[j] == 0
                },
            }
        }),
{
}

/// The four last bytes of a report as one number, the lowest first.
pub open spec fn trailing_number(report: Seq<u8>) -> int {
    let n = report.len();
    report[n - 4] + 256 * report[n - 3] + 65536 * report[n - 2] + 16777216 * report[n - 1]
}

/// Sealing writes the checksum into the four last bytes, the lowest first, and changes nothing
/// before them.
pub proof fn law_seal_holds_the_checksum(report: Seq<u8>, sum: u32)
    requires
        report.len() >= 4,
    ensures
        crc::sealed(report, sum).len() == report.len(),
        crc::sealed(report, sum).take(report.len() - 4) == report.take(report.len() - 4),
        trailing_number(crc::sealed(report, sum)) == sum,
{
    assert(crc::sealed(report, sum).take(report.len() - 4) =~= report.take(report.len() - 4));
}

/// A Bluetooth report can be told from a damaged one: it has 78 bytes, begins with 0x31, the
/// tag and 0x10, and ends in the checksum of 0xA2 and everything before. A USB report has 63
/// bytes and begins with 2.
pub proof fn law_reports_are_framed(w: LightbarWrite, tag: u8)
    ensures
        ({
            let r = lightbar::bt_report(w, tag);
            &&& r.len() == 78
            &&& r[0] == 0x31 && r[1] == tag && r[2] == 0x10
            &&& trailing_number(r) == crc::crc32(seq![0xA2u8] + r.take(74))
        }),
        lightbar::usb_report(w).len() == 63,
        lightbar::usb_report(w)[0] == 2,
{
    let f = lightbar::bt_frame(w, tag);
    let sum = crc::crc32(crc::checked_bytes(0xA2, f));
    law_seal_holds_the_checksum(f, sum);
    assert(lightbar::bt_report(w, tag).take(74) == f.take(74));
}

/// The power-off report begins with 8 and 2, is empty otherwise, and ends in the checksum of the
/// seed and everything before.
pub proof fn law_power_off_report_is_framed(size: nat, seed: u8)
    requires
        size >= 8,
    ensures
        ({
            let f = battery::control_off_frame(size);
            let r = crc::sealed(f, crc::crc32(crc::checked_bytes(seed, f)));
            &&& r.len() == size
            &&& r[0] == 8 && r[1] == 2
            &&& forall|i: int| 2 <= i < size - 4 ==> #[trigger] r[i] == 0
            &&& trailing_number(r) == crc::crc32(seq![seed] + r.take(size - 4))
        }),
{
    let f = battery::control_off_frame(size);
    let sum = crc::crc32(crc::checked_bytes(seed, f));
    law_seal_holds_the_checksum(f, sum);
    assert(crc::sealed(f, sum).take(size - 4) == f.take(size - 4));
}

/// Bluetooth reports are numbered in turn modulo 16, in the high half of the tag; USB reports
/// take no number.
pub proof fn law_reports_are_numbered_in_turn(seq: u8)
    ensures
        lightbar::seq_tag(seq) as int == 16 * (seq as int % 16),
        lightbar::seq_tag(lightbar::next_seq(true, seq)) as int == (lightbar::seq_tag(seq) + 16)
            % 256,
        lightbar::next_seq(false, seq) == seq,
{
}

/// A color goes out by itself on a claimed pad. On another pad the claim goes first and the
/// color only behind it; between them they are all that is sent.
pub proof fn law_claim_goes_first(claim: bool, color: Rgb, bluetooth: bool, seq: u8)
    ensures
        ({
            let first = lightbar::first_plan(claim, color, bluetooth, seq);
            let second = lightbar::plan_after(first, lightbar::next_seq(bluetooth, seq));
            let head: int = if bluetooth {
                3
            } else {
                1
            };
            if claim {
                &&& first.report[head + 38] == 2 && first.report[head + 1] == 0
                &&& second matches Some(p) && p.report[head + 1] == 4 && p.report[head + 44]
                    == color.r && p.report[head + 45] == color.g && p.report[head + 46] == color.b
                    && lightbar::plan_after(p, seq) is None
            } else {
                &&& first.report[head + 1] == 4 && first.report[head + 44] == color.r
                    && first.report[head + 45] == color.g && first.report[head + 46] == color.b
                &&& second is None
            }
        }),
{
}

/// The identify sequence shows white for 150 ms, then the battery color for 150 ms, five times
/// over, and is over after a second and a half.
pub proof fn law_identify_flashes_five_times(round: int, t: int)
    requires
        0 <= round,
        0 <= t < 300,
    ensures
        lightbar::flash_is_white(300 * round + t) == if round >= 5 {
            None::<bool>
        } else {
            Some(t < 150)
        },
{
    assert((300 * round + t) / 150 == 2 * round + if t < 150 {
        0int
    } else {
        1int
    });
}

/// Of the nodes of a pad the first on USB is written to; where none is on USB, the first.
pub proof fn law_first_node_is_chosen(
    ids: Seq<Seq<char>>,
    usb: Seq<bool>,
    target: Seq<char>,
    n: nat,
)
    requires
        n <= ids.len(),
        ids.len() == usb.len(),
    ensures
        lightbar::chosen_node(ids, usb, target, n) matches Some(b) ==> {
            &&& 0 <= b < n
            &&& ids[b] == target
            &&& forall|i: int| 0 <= i < b && #[trigger] ids[i] == target ==> usb[b] && !usb[i]
            &&& forall|i: int| b < i < n && #[trigger] ids[i] == target ==> usb[b] || !usb[i]
        },
        lightbar::chosen_node(ids, usb, target, n) is None ==> forall|i: int|
            0 <= i < n ==> #[trigger] ids[i] != target,
    decreases n,
{
    if n > 0 {
        law_first_node_is_chosen(ids, usb, target, (n - 1) as nat);
    }
}

// ---------------------------------------------------------------------------
// Requests
// ---------------------------------------------------------------------------

/// A feature report is asked for by its number in the first byte of a zeroed buffer of its size:
/// calibration is report 5 of 41 bytes, pairing report 9 of 20.
pub proof fn law_requests_name_their_report(c: Vec<u8>, p: Vec<u8>)
    requires
        call_ensures(battery::calibration_request, (), c),
        call_ensures(identity::pairing_request, (), p),
    ensures
        c@.len() == 41 && c@[0] == 5,
        p@.len() == 20 && p@[0] == 9,
        forall|i: int| 0 < i < c@.len() ==> #[trigger] c@[i] == 0,
        forall|i: int| 0 < i < p@.len() ==> #[trigger] p@[i] == 0,
{
}

/// The node that any call chooses belongs to the pad: the first on USB, or else the first; none
/// is chosen exactly if the pad has none.
pub proof fn law_calls_choose_usb_first(
    ids: &[String],
    buses: &[Bus],
    target: &str,
    r: Option<usize>,
    i: int,
)
    requires
        ids@.len() == buses@.len(),
        call_ensures(lightbar::choose_node, (ids, buses, target), r),
        0 <= i < ids@.len(),
        ids@[i]@ == target@,
    ensures
        r matches Some(b) && b < ids@.len() && ids@[b as int]@ == target@ && (buses@[i] == Bus::Usb
            ==> buses@[b as int] == Bus::Usb && b <= i) && (i < b ==> buses@[b as int] == Bus::Usb),
{
    let views = text::views(ids@);
    law_first_node_is_chosen(views, lightbar::usb_flags(buses@), target@, ids@.len());
    assert(views[i] == target@);
    if let Some(b) = r {
        assert(views[b as int] == target@);
    }
}

} // verus!
