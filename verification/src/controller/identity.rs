//! Pad identity and device filters.
use crate::text;
use vstd::prelude::*;
use vstd::string::StringExecFns;

verus! {

pub const SONY_VENDOR_ID: u16 = 0x054C;

pub const DUALSENSE_PRODUCT_ID: u16 = 0x0CE6;

pub const DUALSENSE_EDGE_PRODUCT_ID: u16 = 0x0DF2;

/// Generic Desktop / Game Pad: the interface that carries battery data.
pub const HID_USAGE_PAGE_GENERIC_DESKTOP: u16 = 0x01;

pub const HID_USAGE_GAMEPAD: u16 = 0x05;

/// Pairing-info feature report.
pub const PAIRING_INFO_FEATURE_REPORT: u8 = 0x09;

pub const PAIRING_INFO_FEATURE_SIZE: usize = 20;

/// Bus that a HID node sits on.
#[derive(Debug, Clone, Copy, PartialEq, Eq, Structural)]
pub enum Bus {
    Unknown,
    Usb,
    Bluetooth,
    I2c,
    Spi,
}

/// What enumeration tells of one HID node.
#[derive(Debug, Clone, PartialEq, Eq)]
pub struct HidNode {
    pub path: String,
    pub vendor_id: u16,
    pub product_id: u16,
    pub usage_page: u16,
    pub usage: u16,
    pub interface: i32,
    pub bus: Bus,
    pub serial: Option<String>,
}

/// Product name of a product id.
pub open spec fn product_label(product_id: u16) -> Seq<char> {
    if product_id == DUALSENSE_EDGE_PRODUCT_ID {
        "DualSense Edge"@
    } else {
        "DualSense"@
    }
}

/// Product name of a product id.
pub fn product_name(product_id: u16) -> (r: &'static str)
    ensures
        r@ == product_label(product_id),
{
    if product_id == DUALSENSE_EDGE_PRODUCT_ID {
        "DualSense Edge"
    } else {
        "DualSense"
    }
}

/// Serial that a node reports, `unknown` when it has none.
pub open spec fn reported_serial(serial: Option<String>) -> Seq<char> {
    match serial {
        Some(s) => if s@.len() > 0 {
            s@
        } else {
            "unknown"@
        },
        None => "unknown"@,
    }
}

/// Serial that a node reports, `unknown` when it has none.
pub fn hid_serial(node: &HidNode) -> (r: String)
    ensures
        r@ == reported_serial(node.serial),
{
    match &node.serial {
        Some(s) => {
            if !s.as_str().is_empty() {
                s.clone()
            } else {
                text::own("unknown")
            }
        },
        None => text::own("unknown"),
    }
}

/// Whether a serial is a real pad identity.
pub open spec fn storable(serial: Seq<char>) -> bool {
    serial.len() > 0 && serial != "unknown"@
}

/// True when a serial is a real pad identity (not empty / `"unknown"`).
pub fn is_storable_serial(serial: &str) -> (r: bool)
    ensures
        r == storable(serial@),
{
    !serial.is_empty() && !text::str_eq(serial, "unknown")
}

/// Unicode lower-case form of a character: what `char::to_lowercase` yields.
pub uninterp spec fn lowercase(c: char) -> Seq<char>;

/// Calls `char::to_lowercase` and collects what it yields. The contract claims that
/// the outcome depends on the character alone, and that an ASCII character yields its
/// ASCII lower-case form; the Unicode table behind the other characters is not stated.
#[verifier::external_body]
fn lowercase_of(c: char) -> (r: Vec<char>)
    ensures
        r@ == lowercase(c),
        (c as u32) < 128 ==> r@ == seq![text::lower(c)],
{
    c.to_lowercase().collect()
}

/// Whether a character only separates groups of an identity.
pub open spec fn separates(c: char) -> bool {
    c == ':' || c == '-'
}

/// Identity without separators, in lower case.
pub open spec fn normalized(s: Seq<char>) -> Seq<char>
    decreases s.len(),
{
    if s.len() == 0 {
        seq![]
    } else if separates(s.last()) {
        normalized(s.drop_last())
    } else {
        normalized(s.drop_last()) + lowercase(s.last())
    }
}

/// ASCII identity without separators, in lower case.
pub open spec fn normalized_ascii(s: Seq<char>) -> Seq<char>
    decreases s.len(),
{
    if s.len() == 0 {
        seq![]
    } else if separates(s.last()) {
        normalized_ascii(s.drop_last())
    } else {
        normalized_ascii(s.drop_last()).push(text::lower(s.last()))
    }
}

/// Whether every character is ASCII.
pub open spec fn ascii(s: Seq<char>) -> bool {
    forall|i: int| 0 <= i < s.len() ==> (#[trigger] s[i] as u32) < 128
}

/// Normalize MAC-style identities so `AA:BB:..` and `aabb..` compare equal.
pub fn normalize_identity(serial: &str) -> (r: String)
    ensures
        r@ == normalized(serial@),
        ascii(serial@) ==> r@ == normalized_ascii(serial@),
{
    let cs = text::chars_of(serial);
    let mut out: String = String::new();
    let mut i: usize = 0;
    while i < cs.len()
        invariant
            i <= cs@.len(),
            cs@ == serial@,
            out@ == normalized(serial@.take(i as int)),
            ascii(serial@) ==> out@ == normalized_ascii(serial@.take(i as int)),
        decreases cs@.len() - i,
    {
        let c = cs[i];
        assert(serial@.take(i + 1).drop_last() == serial@.take(i as int));
        assert(serial@.take(i + 1).last() == c);
        if c != ':' && c != '-' {
            let ghost before = out@;
            let low = lowercase_of(c);
            let piece = text::to_text(low.as_slice());
            out.append(piece.as_str());
            proof {
                if ascii(serial@) {
                    assert((serial@[i as int] as u32) < 128);
                    assert(before + seq![text::lower(c)] == before.push(text::lower(c)));
                }
            }
        }
        i = i + 1;
    }
    assert(serial@.take(i as int) == serial@);
    out
}

proof fn lemma_normalized_concat(a: Seq<char>, b: Seq<char>)
    ensures
        normalized_ascii(a + b) == normalized_ascii(a) + normalized_ascii(b),
    decreases b.len(),
{
    if b.len() == 0 {
        assert(a + b == a);
        assert(normalized_ascii(a) + normalized_ascii(b) == normalized_ascii(a));
    } else {
        assert((a + b).drop_last() == a + b.drop_last());
        lemma_normalized_concat(a, b.drop_last());
        if !separates(b.last()) {
            assert((normalized_ascii(a) + normalized_ascii(b.drop_last())).push(
                text::lower(b.last()),
            ) == normalized_ascii(a) + normalized_ascii(b.drop_last()).push(
                text::lower(b.last()),
            ));
        }
    }
}

/// Separators and ASCII case do not matter: inserting a separator anywhere, or
/// lowering every letter, leaves the normalized identity as it is.
pub proof fn law_separators_and_case_do_not_matter(a: Seq<char>, sep: char, b: Seq<char>)
    requires
        separates(sep),
    ensures
        normalized_ascii(a + seq![sep] + b) == normalized_ascii(a + b),
        normalized_ascii(text::ascii_lower(a)) == normalized_ascii(a),
    decreases a.len(),
{
    lemma_normalized_concat(a, b);
    lemma_normalized_concat(a + seq![sep], b);
    assert((a + seq![sep]).drop_last() == a);
    if a.len() > 0 {
        law_separators_and_case_do_not_matter(a.drop_last(), sep, b);
        assert(text::ascii_lower(a).drop_last() == text::ascii_lower(a.drop_last()));
        assert(text::ascii_lower(a).last() == text::lower(a.last()));
        assert(text::lower(text::lower(a.last())) == text::lower(a.last()));
    }
}

/// A normalized ASCII identity is its own normal form.
pub proof fn law_normalizing_is_idempotent(s: Seq<char>)
    ensures
        normalized_ascii(normalized_ascii(s)) == normalized_ascii(s),
    decreases s.len(),
{
    if s.len() > 0 {
        law_normalizing_is_idempotent(s.drop_last());
        if !separates(s.last()) {
            let n = normalized_ascii(s);
            assert(n.drop_last() == normalized_ascii(s.drop_last()));
            assert(n.last() == text::lower(s.last()));
            assert(!separates(n.last()));
            assert(text::lower(n.last()) == n.last());
        }
    }
}

/// Hexadecimal digits of `mac` from the byte at `n - 1` down to the first.
pub open spec fn mac_digits(mac: Seq<u8>, n: nat) -> Seq<char>
    decreases n,
{
    if n == 0 {
        seq![]
    } else {
        text::hex2(mac[n - 1]) + mac_digits(mac, (n - 1) as nat)
    }
}

/// Text of a little-endian MAC, most significant byte first.
pub fn format_mac_from_le(mac_le: &[u8]) -> (r: String)
    ensures
        r@ == mac_digits(mac_le@, mac_le@.len()),
{
    let mut out: String = String::new();
    let mut n: usize = mac_le.len();
    while n > 0
        invariant
            n <= mac_le@.len(),
            out@ + mac_digits(mac_le@, n as nat) == mac_digits(mac_le@, mac_le@.len()),
        decreases n,
    {
        let ghost before = out@;
        text::push_hex2(&mut out, mac_le[n - 1]);
        proof {
            let h = text::hex2(mac_le@[n - 1]);
            let rest = mac_digits(mac_le@, (n - 1) as nat);
            assert(before + (h + rest) == (before + h) + rest);
        }
        n = n - 1;
    }
    assert(out@ + Seq::<char>::empty() == out@);
    out
}

/// MAC in a pairing-info report of which `n` bytes came.
pub open spec fn pairing_mac(buf: Seq<u8>, n: int) -> Option<Seq<u8>> {
    if n < 7 || buf.len() < 7 || buf[0] != PAIRING_INFO_FEATURE_REPORT {
        None
    } else {
        Some(buf.subrange(1, 7))
    }
}

/// MAC in a pairing-info report of which `n` bytes came, or why there is none.
pub fn read_mac_address_le(buf: &[u8], n: usize) -> (r: Result<Vec<u8>, String>)
    ensures
        match r {
            Ok(mac) => pairing_mac(buf@, n as int) == Some(mac@),
            Err(m) => pairing_mac(buf@, n as int) is None && m@
                == "pairing-info report too short or unexpected id ("@ + text::dec(n as nat)
                + " bytes)"@,
        },
{
    if n < 7 || buf.len() < 7 || buf[0] != PAIRING_INFO_FEATURE_REPORT {
        let count = text::dec_text(n as u64);
        return Err(
            text::cat3(
                "pairing-info report too short or unexpected id (",
                count.as_str(),
                " bytes)",
            ),
        );
    }
    Ok(vstd::slice::slice_to_vec(vstd::slice::slice_subrange(buf, 1, 7)))
}

/// The request for a pairing-info report.
pub fn pairing_request() -> (r: Vec<u8>)
    ensures
        r@ == Seq::new(PAIRING_INFO_FEATURE_SIZE as nat, |i: int| 0u8).update(
            0,
            PAIRING_INFO_FEATURE_REPORT,
        ),
{
    let mut r: Vec<u8> = vec![0u8; PAIRING_INFO_FEATURE_SIZE];
    r.set(0, PAIRING_INFO_FEATURE_REPORT);
    r
}

/// Whether a node's own serial identifies the pad, so that no pairing report is needed.
pub fn has_own_identity(node: &HidNode) -> (r: bool)
    ensures
        r == storable(reported_serial(node.serial)),
{
    let s = hid_serial(node);
    is_storable_serial(s.as_str())
}

/// Identity of a pad from its serial and the MAC of its pairing report.
pub open spec fn identity(serial: Seq<char>, mac: Option<Seq<u8>>) -> Seq<char> {
    if storable(serial) {
        normalized(serial)
    } else {
        match mac {
            Some(mac) => mac_digits(mac, mac.len()),
            None => "unknown"@,
        }
    }
}

/// Stable pad identity: HID serial when present, otherwise the MAC that was read.
/// Hosts often leave the USB serial empty while Bluetooth exposes the MAC.
pub fn resolve_device_identity(node: &HidNode, mac: Option<&[u8]>) -> (r: String)
    ensures
        r@ == identity(
            reported_serial(node.serial),
            match mac {
                Some(m) => Some(m@),
                None => None,
            },
        ),
{
    let hid = hid_serial(node);
    if is_storable_serial(hid.as_str()) {
        return normalize_identity(hid.as_str());
    }
    match mac {
        Some(m) => format_mac_from_le(m),
        None => text::own("unknown"),
    }
}

/// Name of a bus in messages about a pad.
pub open spec fn bus_label(bus: Bus) -> Seq<char> {
    match bus {
        Bus::Usb => "USB"@,
        Bus::Bluetooth => "Bluetooth"@,
        _ => "unknown bus"@,
    }
}

/// Warning for a pad whose MAC could not be read.
pub fn mac_warning(node: &HidNode, err: &str) -> (r: String)
    ensures
        r@ == "could not read MAC for "@ + product_label(node.product_id) + " over "@ + bus_label(
            node.bus,
        ) + ": "@ + err@,
{
    let mut m = text::own("could not read MAC for ");
    m.append(product_name(node.product_id));
    m.append(" over ");
    m.append(
        match node.bus {
            Bus::Usb => "USB",
            Bus::Bluetooth => "Bluetooth",
            _ => "unknown bus",
        },
    );
    m.append(": ");
    m.append(err);
    m
}

/// Whether vendor and product are those of a supported pad.
pub open spec fn dualsense_ids(vendor_id: u16, product_id: u16) -> bool {
    vendor_id == SONY_VENDOR_ID && (product_id == DUALSENSE_PRODUCT_ID || product_id
        == DUALSENSE_EDGE_PRODUCT_ID)
}

/// True for DualSense / DualSense Edge vendor+product (any interface).
pub fn is_dualsense_vid_pid(vendor_id: u16, product_id: u16) -> (r: bool)
    ensures
        r == dualsense_ids(vendor_id, product_id),
{
    vendor_id == SONY_VENDOR_ID && (product_id == DUALSENSE_PRODUCT_ID || product_id
        == DUALSENSE_EDGE_PRODUCT_ID)
}

impl HidNode {
    /// Whether this is the gamepad interface of a supported pad.
    pub open spec fn is_gamepad(self) -> bool {
        dualsense_ids(self.vendor_id, self.product_id) && self.usage_page
            == HID_USAGE_PAGE_GENERIC_DESKTOP && self.usage == HID_USAGE_GAMEPAD
    }
}

pub fn is_dualsense_gamepad(d: &HidNode) -> (r: bool)
    ensures
        r == d.is_gamepad(),
{
    is_dualsense_vid_pid(d.vendor_id, d.product_id) && d.usage_page
        == HID_USAGE_PAGE_GENERIC_DESKTOP && d.usage == HID_USAGE_GAMEPAD
}

pub fn is_dualsense_device(d: &HidNode) -> (r: bool)
    ensures
        r == dualsense_ids(d.vendor_id, d.product_id),
{
    is_dualsense_vid_pid(d.vendor_id, d.product_id)
}

/// Paths of the gamepad interfaces among `nodes`, in enumeration order.
pub open spec fn gamepad_paths(nodes: Seq<HidNode>) -> Seq<Seq<char>>
    decreases nodes.len(),
{
    if nodes.len() == 0 {
        seq![]
    } else if nodes.last().is_gamepad() {
        gamepad_paths(nodes.drop_last()).push(nodes.last().path@)
    } else {
        gamepad_paths(nodes.drop_last())
    }
}

/// Presence keys for connect/disconnect: HID paths, unique per USB/BT node, sorted.
pub fn list_presence_paths(nodes: &[HidNode]) -> (r: Vec<String>)
    ensures
        text::sorted(text::views(r@)),
        text::views(r@).to_multiset() == gamepad_paths(nodes@).to_multiset(),
{
    let mut keys: Vec<String> = Vec::new();
    let mut i: usize = 0;
    assert(text::views(keys@) =~= gamepad_paths(nodes@.take(0)));
    while i < nodes.len()
        invariant
            i <= nodes@.len(),
            text::views(keys@) == gamepad_paths(nodes@.take(i as int)),
        decreases nodes@.len() - i,
    {
        assert(nodes@.take(i + 1).drop_last() == nodes@.take(i as int));
        assert(nodes@.take(i + 1).last() == nodes@[i as int]);
        if is_dualsense_gamepad(&nodes[i]) {
            let ghost before = text::views(keys@);
            keys.push(nodes[i].path.clone());
            assert(text::views(keys@) == before.push(nodes@[i as int].path@));
        }
        i = i + 1;
    }
    assert(nodes@.take(i as int) == nodes@);
    text::sort_strings(keys.as_slice())
}

} // verus!
