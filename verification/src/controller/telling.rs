//! Laws on telling pads apart: identities, device filters, one pad on two buses.
use crate::controller::battery;
use crate::controller::battery::ReportOutcome;
use crate::controller::identity;
use crate::controller::identity::{Bus, HidNode};
use crate::controller::lightbar;
use crate::controller::model;
use crate::controller::model::Connection;
use crate::text;
use crate::text::reading;
use vstd::prelude::*;

verus! {

// ---------------------------------------------------------------------------
// Identity
// ---------------------------------------------------------------------------

/// A MAC is written in two digits a byte, the last byte first: the digits at `2 * k` spell the
/// byte `k` from the end.
pub proof fn law_mac_is_written_backwards(mac: Seq<u8>, n: nat, k: int)
    requires
        n <= mac.len(),
        0 <= k < n,
    ensures
        identity::mac_digits(mac, n).len() == 2 * n,
        reading::spelled(identity::mac_digits(mac, n).subrange(2 * k, 2 * k + 2), 16) == mac[n - 1
            - k],
    decreases n,
{
    let head = text::hex2(mac[n - 1]);
    let rest = identity::mac_digits(mac, (n - 1) as nat);
    let all = identity::mac_digits(mac, n);
    reading::law_hexadecimal_spells_the_number(mac[n - 1], 0);
    if n > 1 {
        law_mac_is_written_backwards(
            mac,
            (n - 1) as nat,
            if k > 0 {
                k - 1
            } else {
                0
            },
        );
    }
    if k == 0 {
        assert(all.subrange(0, 2) =~= head);
    } else {
        assert(all.subrange(2 * k, 2 * k + 2) =~= rest.subrange(2 * (k - 1), 2 * (k - 1) + 2));
    }
}

/// A pairing report with id 9 and at least seven bytes gives the six bytes behind its id; any
/// other gives none.
pub proof fn law_pairing_report_gives_the_mac(buf: Seq<u8>, n: int, i: int)
    requires
        0 <= n <= buf.len(),
        0 <= i < 6,
    ensures
        identity::pairing_mac(buf, n) is Some <==> n >= 7 && buf[0] == 9,
        identity::pairing_mac(buf, n) matches Some(mac) ==> mac.len() == 6 && mac[i] == buf[i + 1],
{
}

/// Over both buses a pad is one pad: the serial that Bluetooth reports, a MAC with colons, is the
/// same identity as the MAC that is read over USB, where no serial comes.
pub proof fn law_both_buses_tell_one_identity(serial: Seq<char>, mac: Seq<u8>)
    requires
        identity::storable(serial),
        identity::normalized(serial) == identity::mac_digits(mac, mac.len()),
    ensures
        identity::identity(serial, None) == identity::identity("unknown"@, Some(mac)),
        identity::identity(serial, Some(mac)) == identity::identity(serial, None),
{
}

/// A pad's own serial is its identity, whatever its MAC; without one the MAC is, and without both
/// it is unknown.
pub proof fn law_serial_comes_before_mac(serial: Seq<char>, mac: Seq<u8>)
    ensures
        serial.len() > 0 && serial != "unknown"@ ==> identity::identity(serial, Some(mac))
            == identity::normalized(serial) && identity::identity(serial, None)
            == identity::normalized(serial),
        serial.len() == 0 || serial == "unknown"@ ==> identity::identity(serial, Some(mac))
            == identity::mac_digits(mac, mac.len()) && identity::identity(serial, None)
            == "unknown"@,
        identity::storable(serial) <==> serial.len() > 0 && serial != "unknown"@,
{
}

/// Normalizing takes out every colon and hyphen and keeps the other characters, in lower case and
/// in their order.
pub proof fn law_normalizing_drops_separators(s: Seq<char>, c: char)
    ensures
        identity::normalized(s.push(c)) == identity::normalized(s) + (if c == ':' || c == '-' {
            Seq::empty()
        } else {
            identity::lowercase(c)
        }),
        identity::normalized_ascii(s.push(c)) == identity::normalized_ascii(s) + (if c == ':' || c
            == '-' {
            Seq::empty()
        } else {
            seq![text::lower(c)]
        }),
        identity::normalized(Seq::empty()).len() == 0,
{
    assert(s.push(c).drop_last() == s);
    if c == ':' || c == '-' {
        assert(identity::normalized(s) + Seq::<char>::empty() == identity::normalized(s));
        assert(identity::normalized_ascii(s) + Seq::<char>::empty() == identity::normalized_ascii(
            s,
        ));
    } else {
        assert(identity::normalized_ascii(s).push(text::lower(c)) == identity::normalized_ascii(s)
            + seq![text::lower(c)]);
    }
}

/// Supported are Sony's DualSense (0x0CE6) and DualSense Edge (0x0DF2), and no other device; the
/// Edge is called so, the other just DualSense.
pub proof fn law_two_products_are_supported(vendor: u16, product: u16)
    ensures
        identity::dualsense_ids(vendor, product) <==> vendor == 0x054C && (product == 0x0CE6
            || product == 0x0DF2),
        identity::product_label(0x0DF2) == "DualSense Edge"@,
        product != 0x0DF2 ==> identity::product_label(product) == "DualSense"@,
{
}

/// Present are the paths of the gamepad interfaces (page 1, usage 5) of supported pads: each node
/// that is one adds its path, the others nothing.
pub proof fn law_gamepads_are_present(nodes: Seq<HidNode>, node: HidNode)
    ensures
        identity::gamepad_paths(nodes.push(node)) == identity::gamepad_paths(nodes) + (
        if node.vendor_id == 0x054C && (node.product_id == 0x0CE6 || node.product_id == 0x0DF2)
            && node.usage_page == 1 && node.usage == 5 {
            seq![node.path@]
        } else {
            seq![]
        }),
        identity::gamepad_paths(Seq::empty()).len() == 0,
{
    assert(nodes.push(node).drop_last() == nodes);
}

// ---------------------------------------------------------------------------
// One pad on two buses
// ---------------------------------------------------------------------------

proof fn lemma_place(s: Seq<model::StatusView>, kept: Seq<int>, serial: Seq<char>)
    ensures
        0 <= battery::place_of(s, kept, serial) <= kept.len(),
        battery::place_of(s, kept, serial) < kept.len() ==> s[kept[battery::place_of(
            s,
            kept,
            serial,
        )]].serial == serial,
    decreases kept.len(),
{
    if kept.len() > 0 && battery::kept_serial(s, kept, 0) != serial {
        lemma_place(s, kept.drop_first(), serial);
    }
}

/// De-duplication takes out nothing but second nodes of one pad: a node that goes has another of
/// the same serial in its place, and a node without identity never goes.
pub proof fn law_only_second_nodes_go(s: Seq<model::StatusView>, n: nat, i: int)
    requires
        n <= s.len(),
        0 <= i < n,
    ensures
        !identity::storable(s[i].serial) ==> battery::kept_pads(s, n).contains(i),
        exists|k: int|
            0 <= k < battery::kept_pads(s, n).len() && s[#[trigger] battery::kept_pads(
                s,
                n,
            )[k]].serial == s[i].serial,
    decreases n,
{
    let m = (n - 1) as nat;
    let kept = battery::kept_pads(s, m);
    let next = battery::kept_pads(s, n);
    let at = battery::place_of(s, kept, s[m as int].serial);
    lemma_place(s, kept, s[m as int].serial);
    if i < m {
        law_only_second_nodes_go(s, m, i);
        let k = choose|k: int| 0 <= k < kept.len() && s[#[trigger] kept[k]].serial == s[i].serial;
        if next.len() == kept.len() && k == at {
            assert(s[next[k]].serial == s[i].serial);
        } else {
            assert(next[k] == kept[k]);
        }
        if !identity::storable(s[i].serial) {
            let j = choose|j: int| 0 <= j < kept.len() && kept[j] == i;
            assert(next[j] == i);
        }
    } else {
        if next.len() > kept.len() {
            assert(next[next.len() - 1] == i);
        } else {
            assert(s[next[at]].serial == s[i].serial);
        }
    }
}

/// A pad keeps the place of its first node: pads that come once are kept in their order.
pub proof fn law_pads_seen_once_keep_their_order(s: Seq<model::StatusView>, n: nat)
    requires
        n <= s.len(),
        forall|i: int, j: int|
            0 <= i < j < n ==> (#[trigger] s[i]).serial != (#[trigger] s[j]).serial,
    ensures
        battery::kept_pads(s, n) == Seq::new(n, |i: int| i),
    decreases n,
{
    if n > 0 {
        let m = (n - 1) as nat;
        law_pads_seen_once_keep_their_order(s, m);
        let kept = battery::kept_pads(s, m);
        let at = battery::place_of(s, kept, s[m as int].serial);
        lemma_place(s, kept, s[m as int].serial);
        if at < kept.len() {
            assert(s[at].serial != s[m as int].serial);
        }
        assert(battery::kept_pads(s, n) =~= Seq::new(n, |i: int| i));
    }
}

// ---------------------------------------------------------------------------
// Power-off
// ---------------------------------------------------------------------------

/// Power-off is tried on every node of the pad first, then on every node that tells nothing of
/// itself, each once and in the order of the listing; never on a node of another pad.
pub proof fn law_power_off_spares_other_pads(ids: Seq<Seq<char>>, target: Seq<char>, n: nat, i: int)
    requires
        n <= ids.len(),
    ensures
        ({
            let own = battery::exact_matches(ids, target, n);
            let unknown = battery::unidentified(ids, target, n);
            &&& own.contains(i) <==> 0 <= i < n && ids[i] == target
            &&& unknown.contains(i) <==> 0 <= i < n && ids[i] != target && (ids[i].len() == 0
                || ids[i] == "unknown"@)
            &&& forall|j: int, k: int|
                0 <= j < k < own.len() ==> #[trigger] own[j] < #[trigger] own[k]
            &&& forall|j: int, k: int|
                0 <= j < k < unknown.len() ==> #[trigger] unknown[j] < #[trigger] unknown[k]
            &&& forall|j: int| 0 <= j < own.len() ==> #[trigger] own[j] < n
            &&& forall|j: int| 0 <= j < unknown.len() ==> #[trigger] unknown[j] < n
        }),
    decreases n,
{
    if n > 0 {
        let m = (n - 1) as nat;
        law_power_off_spares_other_pads(ids, target, m, i);
        lemma_push_contains(battery::exact_matches(ids, target, m), m as int, i);
        lemma_push_contains(battery::unidentified(ids, target, m), m as int, i);
    }
}

proof fn lemma_push_contains(s: Seq<int>, x: int, i: int)
    ensures
        s.push(x).contains(i) <==> s.contains(i) || i == x,
{
    if s.contains(i) {
        let k = choose|k: int| 0 <= k < s.len() && s[k] == i;
        assert(s.push(x)[k] == i);
    }
    if s.push(x).contains(i) {
        let k = choose|k: int| 0 <= k < s.push(x).len() && s.push(x)[k] == i;
        if k < s.len() {
            assert(s[k] == i);
        }
    }
    assert(s.push(x)[s.len() as int] == x);
}

/// Each candidate is tried six times before the next one: with seed 0xA3 and then 0x53, each with
/// reports of 48, 47 and 64 bytes.
pub proof fn law_candidates_are_tried_six_times(candidate: int, turn: int)
    requires
        0 <= candidate <= usize::MAX,
        0 <= turn < 6,
    ensures
        ({
            let a = battery::nth_attempt(6 * candidate + turn);
            &&& a.candidate == candidate
            &&& a.seed == if turn < 3 {
                0xA3u8
            } else {
                0x53u8
            }
            &&& turn == 0 || turn == 3 ==> a.size == 48
            &&& turn == 1 || turn == 4 ==> a.size == 47
            &&& turn == 2 || turn == 5 ==> a.size == 64
        }),
{
    assert((6 * candidate + turn) / 6 == candidate);
    assert((6 * candidate + turn) % 6 == turn);
}

// ---------------------------------------------------------------------------
// Reading a pad
// ---------------------------------------------------------------------------

/// A pad is read over USB and Bluetooth and over no other bus, into a buffer of 64 or 78 bytes.
pub proof fn law_two_buses_are_read(bus: Bus)
    ensures
        battery::bus_connection(bus) == Some(Connection::Usb) <==> bus == Bus::Usb,
        battery::bus_connection(bus) == Some(Connection::Bluetooth) <==> bus == Bus::Bluetooth,
        battery::report_size(Connection::Usb) == 64,
        battery::report_size(Connection::Bluetooth) == 78,
{
}

/// A node that reports no serial, or an empty one, reports `unknown`, which is no identity; any
/// other serial is reported as it is.
pub proof fn law_missing_serial_is_unknown(serial: Option<String>)
    ensures
        serial is None || serial->0@.len() == 0 ==> identity::reported_serial(serial) == "unknown"@
            && !identity::storable(identity::reported_serial(serial)),
        serial matches Some(s) ==> (s@.len() > 0 ==> identity::reported_serial(serial) == s@),
{
}

/// A report that cannot be used is complained of with what is wrong: the id that came and the one
/// that was expected, or its length. A usable report is not complained of.
pub proof fn law_complaint_says_what_is_wrong(got: u8, expected: u8, bytes: usize)
    ensures
        (ReportOutcome::WrongId { got, expected }).complaint() == Some(
            "unexpected report id 0x"@ + text::hex2(got) + " (expected 0x"@ + text::hex2(expected)
                + ")"@,
        ),
        (ReportOutcome::TooShort { bytes }).complaint() == Some(
            "input report too short ("@ + text::dec(bytes as nat) + " bytes)"@,
        ),
        ReportOutcome::Retry.complaint() is None,
        ReportOutcome::RequestFull.complaint() is None,
{
}

/// A write is tried again where the error tells of overlapped input and output, by its number or
/// in words, wherever in the text that stands.
pub proof fn law_overlapped_writes_are_tried_again(a: Seq<char>, b: Seq<char>, err: Seq<char>)
    ensures
        lightbar::retryable(a + "0x000003E5"@ + b),
        lightbar::retryable(a + "WaitForSingleObject"@ + b),
        lightbar::retryable(a + "Overlapped I/O"@ + b),
        lightbar::retryable(err) ==> exists|x: Seq<char>, p: Seq<char>, y: Seq<char>|
            err == #[trigger] (x + p + y) && (p == "0x000003E5"@ || p == "WaitForSingleObject"@ || p
                == "Overlapped I/O"@),
{
    reading::law_parts_are_found(a + "0x000003E5"@ + b, "0x000003E5"@);
    reading::law_parts_are_found(a + "WaitForSingleObject"@ + b, "WaitForSingleObject"@);
    reading::law_parts_are_found(a + "Overlapped I/O"@ + b, "Overlapped I/O"@);
    reading::law_parts_are_found(err, "0x000003E5"@);
    reading::law_parts_are_found(err, "WaitForSingleObject"@);
    reading::law_parts_are_found(err, "Overlapped I/O"@);
}

} // verus!
