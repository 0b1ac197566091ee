//! Lightbar output: claims, reports and the identify sequence.
use crate::controller::crc;
use crate::controller::identity;
use crate::controller::identity::Bus;
use crate::text;
use crate::text_map::TextSet;
use vstd::prelude::*;

verus! {

pub const OUTPUT_REPORT_USB_ID: u8 = 0x02;

pub const OUTPUT_REPORT_USB_SIZE: usize = 63;

pub const OUTPUT_REPORT_BT_ID: u8 = 0x31;

pub const OUTPUT_REPORT_BT_SIZE: usize = 78;

pub const OUTPUT_REPORT_BT_TAG: u8 = 0x10;

pub const OUTPUT_CRC32_SEED: u8 = 0xA2;

/// Offsets into the common output payload (after report ID / Bluetooth header).
pub const OFF_VALID_FLAG1: usize = 1;

pub const OFF_VALID_FLAG2: usize = 38;

pub const OFF_LIGHTBAR_SETUP: usize = 41;

pub const OFF_LIGHTBAR_R: usize = 44;

pub const OFF_LIGHTBAR_G: usize = 45;

pub const OFF_LIGHTBAR_B: usize = 46;

pub const OUTPUT_VALID_FLAG1_LIGHTBAR: u8 = 4;

pub const OUTPUT_VALID_FLAG2_LIGHTBAR_SETUP: u8 = 2;

/// Reconfigure so that RGB programming is accepted; a separate report from the RGB write.
pub const OUTPUT_LIGHTBAR_SETUP_LIGHT_OUT: u8 = 2;

pub const WRITE_RETRY_DELAY_MS: u64 = 75;

pub const IDENTIFY_FLASH_MS: u64 = 150;

pub const IDENTIFY_FLASH_COUNT: u32 = 5;

pub const LOW_BATTERY_PULSE_ON_MS: u64 = 400;

pub const LOW_BATTERY_PULSE_GAP_MS: u64 = 1600;

/// A lightbar color.
#[derive(Debug, Clone, Copy, PartialEq, Eq, Structural)]
pub struct Rgb {
    pub r: u8,
    pub g: u8,
    pub b: u8,
}

impl Rgb {
    /// Full white.
    pub open spec fn white_color() -> Rgb {
        Rgb { r: 255, g: 255, b: 255 }
    }

    /// Full white.
    pub fn white() -> (r: Rgb)
        ensures
            r == Rgb::white_color(),
    {
        Rgb { r: 255, g: 255, b: 255 }
    }
}

// ---------------------------------------------------------------------------
// Identify
// ---------------------------------------------------------------------------

/// Whether the identify sequence shows white `elapsed` milliseconds in; nothing once it
/// is over: white, then the battery color, each for one flash, five times.
pub open spec fn flash_is_white(elapsed: int) -> Option<bool> {
    let step = elapsed / (IDENTIFY_FLASH_MS as int);
    if step >= IDENTIFY_FLASH_COUNT * 2 {
        None
    } else {
        Some(step % 2 == 0)
    }
}

/// Time from `started` to `now`, zero when `now` is earlier.
pub open spec fn elapsed(started: u64, now: u64) -> int {
    if now >= started {
        now - started
    } else {
        0
    }
}

/// Whether the identify sequence should show white at `now` (milliseconds).
///
/// White for [`IDENTIFY_FLASH_MS`], then battery color for the same duration, repeated
/// [`IDENTIFY_FLASH_COUNT`] times. Returns `None` when the sequence is finished.
pub fn identify_flash_is_white(started: u64, now: u64) -> (r: Option<bool>)
    ensures
        r == flash_is_white(elapsed(started, now)),
{
    let elapsed_ms: u64 = now.saturating_sub(started);
    let step: u64 = elapsed_ms / IDENTIFY_FLASH_MS;
    if step >= IDENTIFY_FLASH_COUNT as u64 * 2 {
        None
    } else {
        Some(step % 2 == 0)
    }
}

/// Color of the `step`-th write of the identify sequence.
pub open spec fn flash_color(step: int, normal: Rgb) -> Rgb {
    if step % 2 == 0 {
        Rgb::white_color()
    } else {
        normal
    }
}

/// Color of the `step`-th write of the identify sequence.
pub fn identify_flash_color(step: u32, normal: Rgb) -> (r: Rgb)
    ensures
        r == flash_color(step as int, normal),
{
    if step % 2 == 0 {
        Rgb::white()
    } else {
        normal
    }
}

/// The shown flash and the written flash agree: during the `step`-th flash period the
/// sequence shows white exactly when the `step`-th write is white, and it lasts as many
/// periods as there are writes.
pub proof fn law_flash_timing_matches_writes(step: int, within: int, normal: Rgb)
    requires
        0 <= step,
        0 <= within < IDENTIFY_FLASH_MS,
        normal != Rgb::white_color(),
    ensures
        flash_is_white(step * (IDENTIFY_FLASH_MS as int) + within) == if step
            < IDENTIFY_FLASH_COUNT * 2 {
            Some(flash_color(step, normal) == Rgb::white_color())
        } else {
            None
        },
{
    assert((step * 150 + within) / 150 == step);
}

// ---------------------------------------------------------------------------
// Claims
// ---------------------------------------------------------------------------

/// Which pads were claimed this connection, whether automatic writes run, and the
/// sequence number of the next Bluetooth report.
#[derive(Debug)]
pub struct LightbarState {
    pub claimed: TextSet,
    pub automatic: bool,
    pub seq: u8,
}

/// A pad serial as it is claimed.
pub open spec fn claim_key(serial: Seq<char>) -> Seq<char> {
    identity::normalized(serial)
}

/// Claim keys of a list of serials.
pub open spec fn claim_keys(serials: Seq<Seq<char>>) -> Set<Seq<char>>
    decreases serials.len(),
{
    if serials.len() == 0 {
        Set::empty()
    } else {
        claim_keys(serials.drop_last()).insert(claim_key(serials.last()))
    }
}

impl LightbarState {
    /// Nothing claimed, automatic writes on.
    pub fn new() -> (r: Self)
        ensures
            r.claimed@ == Set::<Seq<char>>::empty(),
            r.automatic,
            r.seq == 0,
    {
        LightbarState { claimed: TextSet::new(), automatic: true, seq: 0 }
    }
}

/// Enable or disable automatic lightbar RGB (poll + low-battery pulse).
pub fn set_enabled(state: &mut LightbarState, enabled: bool)
    ensures
        final(state).automatic == enabled,
        final(state).claimed@ == old(state).claimed@,
        final(state).seq == old(state).seq,
{
    state.automatic = enabled;
}

/// Whether automatic lightbar RGB writes should run.
pub fn is_enabled(state: &LightbarState) -> (r: bool)
    ensures
        r == state.automatic,
{
    state.automatic
}

/// Tag of the `seq`-th Bluetooth report: its number modulo 16, in the high nibble.
pub open spec fn seq_tag(seq: u8) -> u8 {
    ((seq % 16) * 16) as u8
}

/// Tag of the next Bluetooth report.
pub fn next_bt_seq_tag(state: &mut LightbarState) -> (r: u8)
    ensures
        r == seq_tag(old(state).seq),
        final(state).seq == if old(state).seq == 255 {
            0
        } else {
            (old(state).seq + 1) as u8
        },
        final(state).claimed@ == old(state).claimed@,
        final(state).automatic == old(state).automatic,
{
    let seq: u8 = state.seq;
    state.seq = if seq == 255 {
        0
    } else {
        seq + 1
    };
    (seq % 16) * 16
}

/// Claim keys of a list of serials.
pub fn keys_of(serials: &[String]) -> (r: TextSet)
    ensures
        r@ == claim_keys(text::views(serials@)),
{
    let ghost sv = text::views(serials@);
    let mut r = TextSet::new();
    let mut i: usize = 0;
    while i < serials.len()
        invariant
            i <= serials@.len(),
            sv == text::views(serials@),
            r@ == claim_keys(sv.take(i as int)),
        decreases serials@.len() - i,
    {
        assert(sv.take(i + 1).drop_last() == sv.take(i as int));
        assert(sv.take(i + 1).last() == serials@[i as int]@);
        r.insert(identity::normalize_identity(serials[i].as_str()));
        i = i + 1;
    }
    assert(sv.take(i as int) == sv);
    r
}

/// Drop claims for pads that are no longer present.
pub fn sync_lightbar_claims(state: &mut LightbarState, active_serials: &[String])
    ensures
        final(state).claimed@ == old(state).claimed@.intersect(
            claim_keys(text::views(active_serials@)),
        ),
        final(state).automatic == old(state).automatic,
        final(state).seq == old(state).seq,
{
    let active = keys_of(active_serials);
    state.claimed.retain_in(&active);
}

/// Drop all claims.
pub fn forget_all_claims(state: &mut LightbarState)
    ensures
        final(state).claimed@ == Set::<Seq<char>>::empty(),
        final(state).automatic == old(state).automatic,
        final(state).seq == old(state).seq,
{
    state.claimed.clear();
}

/// Claims a pad; true when it was not claimed yet, so that the claim has to be written.
pub fn take_claim_if_needed(state: &mut LightbarState, serial: &str) -> (r: bool)
    ensures
        r == !old(state).claimed@.contains(claim_key(serial@)),
        final(state).claimed@ == old(state).claimed@.insert(claim_key(serial@)),
        final(state).automatic == old(state).automatic,
        final(state).seq == old(state).seq,
{
    state.claimed.insert(identity::normalize_identity(serial))
}

/// Drops the claim of one pad.
pub fn forget_claim(state: &mut LightbarState, serial: &str)
    ensures
        final(state).claimed@ == old(state).claimed@.remove(claim_key(serial@)),
        final(state).automatic == old(state).automatic,
        final(state).seq == old(state).seq,
{
    let key = identity::normalize_identity(serial);
    state.claimed.remove(key.as_str());
}

/// Drop the claim for `serial` so the next apply writes the claim, then RGB.
///
/// Used when a pad newly appears in the live set: presence can clear the tray without a
/// HID poll, which would otherwise leave a stale claim and skip the reclaim on reconnect.
pub fn prepare_connect_apply(state: &mut LightbarState, serial: &str)
    ensures
        final(state).claimed@ == old(state).claimed@.remove(claim_key(serial@)),
        final(state).automatic == old(state).automatic,
        final(state).seq == old(state).seq,
{
    forget_claim(state, serial);
}

/// A pad is claimed once per connection: a second claim is not needed until the pad was
/// absent from a sync, forgotten, or prepared for a fresh connect.
pub proof fn law_claim_once_per_connection(
    claimed: Set<Seq<char>>,
    serial: Seq<char>,
    active: Set<Seq<char>>,
)
    ensures
        claimed.insert(claim_key(serial)).contains(claim_key(serial)),
        active.contains(claim_key(serial)) ==> claimed.insert(claim_key(serial)).intersect(
            active,
        ).contains(claim_key(serial)),
        !active.contains(claim_key(serial)) ==> !claimed.insert(claim_key(serial)).intersect(
            active,
        ).contains(claim_key(serial)),
        !claimed.insert(claim_key(serial)).remove(claim_key(serial)).contains(claim_key(serial)),
{
}

// ---------------------------------------------------------------------------
// Reports
// ---------------------------------------------------------------------------

/// What an output report does to the lightbar.
#[derive(Debug, Clone, Copy, PartialEq, Eq, Structural)]
pub enum LightbarWrite {
    /// Take the lightbar over; colors are ignored before that.
    Claim,
    Color(Rgb),
}

/// Byte `j` of the common payload.
pub open spec fn common_byte(w: LightbarWrite, j: int) -> u8 {
    match w {
        LightbarWrite::Claim => if j == OFF_VALID_FLAG2 {
            OUTPUT_VALID_FLAG2_LIGHTBAR_SETUP
        } else if j == OFF_LIGHTBAR_SETUP {
            OUTPUT_LIGHTBAR_SETUP_LIGHT_OUT
        } else {
            0
        },
        LightbarWrite::Color(c) => if j == OFF_VALID_FLAG1 {
            OUTPUT_VALID_FLAG1_LIGHTBAR
        } else if j == OFF_LIGHTBAR_R {
            c.r
        } else if j == OFF_LIGHTBAR_G {
            c.g
        } else if j == OFF_LIGHTBAR_B {
            c.b
        } else {
            0
        },
    }
}

/// USB output report.
pub open spec fn usb_report(w: LightbarWrite) -> Seq<u8> {
    Seq::new(
        OUTPUT_REPORT_USB_SIZE as nat,
        |i: int|
            if i == 0 {
                OUTPUT_REPORT_USB_ID
            } else {
                common_byte(w, i - 1)
            },
    )
}

/// Bluetooth output report before its checksum is filled in.
pub open spec fn bt_frame(w: LightbarWrite, tag: u8) -> Seq<u8> {
    Seq::new(
        OUTPUT_REPORT_BT_SIZE as nat,
        |i: int|
            if i == 0 {
                OUTPUT_REPORT_BT_ID
            } else if i == 1 {
                tag
            } else if i == 2 {
                OUTPUT_REPORT_BT_TAG
            } else {
                common_byte(w, i - 3)
            },
    )
}

/// Bluetooth output report.
pub open spec fn bt_report(w: LightbarWrite, tag: u8) -> Seq<u8> {
    crc::sealed(bt_frame(w, tag), crc::crc32(crc::checked_bytes(OUTPUT_CRC32_SEED, bt_frame(w, tag))))
}

fn fill_common(report: &mut Vec<u8>, w: LightbarWrite, base: usize)
    requires
        base <= 3,
        old(report)@.len() >= base + 59,
        old(report)@.len() < 1000,
        forall|i: int| base <= i < old(report)@.len() ==> old(report)@[i] == 0,
    ensures
        final(report)@.len() == old(report)@.len(),
        forall|i: int| 0 <= i < base ==> final(report)@[i] == old(report)@[i],
        forall|i: int|
            base <= i < old(report)@.len() ==> final(report)@[i] == common_byte(w, i - base),
{
    match w {
        LightbarWrite::Claim => {
            report.set(base + OFF_VALID_FLAG2, OUTPUT_VALID_FLAG2_LIGHTBAR_SETUP);
            report.set(base + OFF_LIGHTBAR_SETUP, OUTPUT_LIGHTBAR_SETUP_LIGHT_OUT);
        },
        LightbarWrite::Color(c) => {
            report.set(base + OFF_VALID_FLAG1, OUTPUT_VALID_FLAG1_LIGHTBAR);
            report.set(base + OFF_LIGHTBAR_R, c.r);
            report.set(base + OFF_LIGHTBAR_G, c.g);
            report.set(base + OFF_LIGHTBAR_B, c.b);
        },
    }
}

/// USB output report.
pub fn build_usb_report(w: LightbarWrite) -> (r: Vec<u8>)
    ensures
        r@ == usb_report(w),
{
    let mut report: Vec<u8> = vec![0u8; OUTPUT_REPORT_USB_SIZE];
    report.set(0, OUTPUT_REPORT_USB_ID);
    fill_common(&mut report, w, 1);
    assert(report@ =~= usb_report(w));
    report
}

/// Bluetooth output report with the given sequence tag.
pub fn build_bt_report(w: LightbarWrite, tag: u8) -> (r: Vec<u8>)
    ensures
        r@ == bt_report(w, tag),
{
    let mut report: Vec<u8> = vec![0u8; OUTPUT_REPORT_BT_SIZE];
    report.set(0, OUTPUT_REPORT_BT_ID);
    report.set(1, tag);
    report.set(2, OUTPUT_REPORT_BT_TAG);
    fill_common(&mut report, w, 3);
    assert(report@ =~= bt_frame(w, tag));
    let sum = crc::report_crc(OUTPUT_CRC32_SEED, report.as_slice());
    crc::seal_report(report, sum)
}

/// Claim and color travel in separate reports: a claim sets no color flag, and a color
/// sets no setup flag.
pub proof fn law_claim_and_color_are_separate(c: Rgb)
    ensures
        common_byte(LightbarWrite::Claim, OFF_VALID_FLAG1 as int) == 0,
        common_byte(LightbarWrite::Claim, OFF_LIGHTBAR_R as int) == 0,
        common_byte(LightbarWrite::Claim, OFF_LIGHTBAR_G as int) == 0,
        common_byte(LightbarWrite::Claim, OFF_LIGHTBAR_B as int) == 0,
        common_byte(LightbarWrite::Color(c), OFF_VALID_FLAG2 as int) == 0,
        common_byte(LightbarWrite::Color(c), OFF_LIGHTBAR_SETUP as int) == 0,
{
}

// ---------------------------------------------------------------------------
// Applying a color
// ---------------------------------------------------------------------------

/// A report to write to an open pad, and what follows once it is written.
#[derive(Debug)]
pub struct ApplyPlan {
    /// The pad was claimed for this color.
    pub claim: bool,
    pub report: Vec<u8>,
    /// Color whose report follows.
    pub next_color: Option<Rgb>,
    pub bluetooth: bool,
}

/// Model of [`ApplyPlan`].
#[verifier::ext_equal]
pub struct PlanView {
    pub claim: bool,
    pub report: Seq<u8>,
    pub next_color: Option<Rgb>,
    pub bluetooth: bool,
}

impl View for ApplyPlan {
    type V = PlanView;

    open spec fn view(&self) -> PlanView {
        PlanView {
            claim: self.claim,
            report: self.report@,
            next_color: self.next_color,
            bluetooth: self.bluetooth,
        }
    }
}

/// Report over a bus.
pub open spec fn output_report(w: LightbarWrite, bluetooth: bool, seq: u8) -> Seq<u8> {
    if bluetooth {
        bt_report(w, seq_tag(seq))
    } else {
        usb_report(w)
    }
}

/// Sequence number behind a report over a bus.
pub open spec fn next_seq(bluetooth: bool, seq: u8) -> u8 {
    if !bluetooth {
        seq
    } else if seq == 255 {
        0
    } else {
        (seq + 1) as u8
    }
}

fn next_report(state: &mut LightbarState, w: LightbarWrite, bluetooth: bool) -> (r: Vec<u8>)
    ensures
        r@ == output_report(w, bluetooth, old(state).seq),
        final(state).seq == next_seq(bluetooth, old(state).seq),
        final(state).claimed@ == old(state).claimed@,
        final(state).automatic == old(state).automatic,
{
    if bluetooth {
        let tag = next_bt_seq_tag(state);
        build_bt_report(w, tag)
    } else {
        build_usb_report(w)
    }
}

/// The report that setting a color begins with: the claim where one is needed, else the color.
pub open spec fn first_plan(claim: bool, color: Rgb, bluetooth: bool, seq: u8) -> PlanView {
    PlanView {
        claim,
        report: output_report(
            if claim {
                LightbarWrite::Claim
            } else {
                LightbarWrite::Color(color)
            },
            bluetooth,
            seq,
        ),
        next_color: if claim {
            Some(color)
        } else {
            None
        },
        bluetooth,
    }
}

/// The report that follows a written one.
pub open spec fn plan_after(plan: PlanView, seq: u8) -> Option<PlanView> {
    match plan.next_color {
        Some(color) => Some(
            PlanView {
                claim: plan.claim,
                report: output_report(LightbarWrite::Color(color), plan.bluetooth, seq),
                next_color: None,
                bluetooth: plan.bluetooth,
            },
        ),
        None => None,
    }
}

/// The report to write first on an open pad. A pad ignores colors until it was claimed with a
/// report of its own; the color follows in a second report, which gets its number when the
/// claim was written.
pub fn set_lightbar_on_device(
    state: &mut LightbarState,
    color: Rgb,
    is_bluetooth: bool,
    claim: bool,
) -> (r: ApplyPlan)
    ensures
        r@ == first_plan(claim, color, is_bluetooth, old(state).seq),
        final(state).seq == next_seq(is_bluetooth, old(state).seq),
        final(state).claimed@ == old(state).claimed@,
        final(state).automatic == old(state).automatic,
{
    if claim {
        let report = next_report(state, LightbarWrite::Claim, is_bluetooth);
        ApplyPlan { claim, report, next_color: Some(color), bluetooth: is_bluetooth }
    } else {
        let report = next_report(state, LightbarWrite::Color(color), is_bluetooth);
        ApplyPlan { claim, report, next_color: None, bluetooth: is_bluetooth }
    }
}

/// Begins to set a color on an open pad, which is claimed if it is not yet. After each report
/// [`after_write`] tells what follows.
pub fn apply_on_open_device(
    state: &mut LightbarState,
    serial: &str,
    color: Rgb,
    is_bluetooth: bool,
) -> (r: ApplyPlan)
    ensures
        r@ == first_plan(
            !old(state).claimed@.contains(claim_key(serial@)),
            color,
            is_bluetooth,
            old(state).seq,
        ),
        final(state).claimed@ == old(state).claimed@.insert(claim_key(serial@)),
        final(state).automatic == old(state).automatic,
        final(state).seq == next_seq(is_bluetooth, old(state).seq),
{
    let claim = take_claim_if_needed(state, serial);
    set_lightbar_on_device(state, color, is_bluetooth, claim)
}

/// Takes in that a planned report could not be written: a claim may have been
/// completed in part, so the next attempt claims again.
pub fn apply_failed(state: &mut LightbarState, serial: &str, plan: &ApplyPlan)
    ensures
        final(state).claimed@ == if plan.claim {
            old(state).claimed@.remove(claim_key(serial@))
        } else {
            old(state).claimed@
        },
        final(state).automatic == old(state).automatic,
        final(state).seq == old(state).seq,
{
    if plan.claim {
        forget_claim(state, serial);
    }
}

/// Takes in whether a planned report was written; the report that follows, if any. If the claim
/// could not be written, the color is not attempted on the same handle.
pub fn after_write(
    state: &mut LightbarState,
    serial: &str,
    plan: ApplyPlan,
    written: bool,
) -> (r: Option<ApplyPlan>)
    ensures
        ({
            let next = if written {
                plan_after(plan@, old(state).seq)
            } else {
                None
            };
            &&& match r {
                Some(p) => next == Some(p@),
                None => next is None,
            }
            &&& final(state).seq == if next is Some {
                next_seq(plan.bluetooth, old(state).seq)
            } else {
                old(state).seq
            }
        }),
        final(state).claimed@ == if !written && plan.claim {
            old(state).claimed@.remove(claim_key(serial@))
        } else {
            old(state).claimed@
        },
        final(state).automatic == old(state).automatic,
{
    if !written {
        apply_failed(state, serial, &plan);
        None
    } else if let Some(color) = plan.next_color {
        let report = next_report(state, LightbarWrite::Color(color), plan.bluetooth);
        Some(ApplyPlan { claim: plan.claim, report, next_color: None, bluetooth: plan.bluetooth })
    } else {
        None
    }
}

/// A color that needs a claim goes out behind the written claim only, under the next number;
/// one that needs none goes out at once. Nothing follows the color.
pub proof fn law_color_follows_a_written_claim(claim: bool, color: Rgb, bluetooth: bool, seq: u8)
    ensures
        ({
            let first = first_plan(claim, color, bluetooth, seq);
            let behind = next_seq(bluetooth, seq);
            if claim {
                &&& first.report == output_report(LightbarWrite::Claim, bluetooth, seq)
                &&& plan_after(first, behind) matches Some(second) && second.report == output_report(
                    LightbarWrite::Color(color),
                    bluetooth,
                    behind,
                ) && plan_after(second, next_seq(bluetooth, behind)) is None
            } else {
                &&& first.report == output_report(LightbarWrite::Color(color), bluetooth, seq)
                &&& plan_after(first, behind) is None
            }
        }),
{
}

/// After a failed first claim the pad is unclaimed again, as before the attempt.
pub proof fn law_failed_claim_is_retried(claimed: Set<Seq<char>>, serial: Seq<char>)
    requires
        !claimed.contains(claim_key(serial)),
    ensures
        claimed.insert(claim_key(serial)).remove(claim_key(serial)) == claimed,
{
    assert(claimed.insert(claim_key(serial)).remove(claim_key(serial)) =~= claimed);
}

/// Whether a write error is worth one retry on a fresh handle.
pub open spec fn retryable(err: Seq<char>) -> bool {
    text::occurs(err, "0x000003E5"@) || text::occurs(err, "WaitForSingleObject"@) || text::occurs(
        err,
        "Overlapped I/O"@,
    )
}

/// Whether a write error is worth one retry on a fresh handle.
pub fn is_retryable_write_error(err: &str) -> (r: bool)
    ensures
        r == retryable(err@),
{
    text::str_contains(err, "0x000003E5") || text::str_contains(err, "WaitForSingleObject")
        || text::str_contains(err, "Overlapped I/O")
}

/// The node to write to among the first `n`: the first of the pad, unless a later one
/// is the first of it on USB.
pub open spec fn chosen_node(
    ids: Seq<Seq<char>>,
    usb: Seq<bool>,
    target: Seq<char>,
    n: nat,
) -> Option<int>
    decreases n,
{
    if n == 0 {
        None
    } else {
        let best = chosen_node(ids, usb, target, (n - 1) as nat);
        if ids[n - 1] != target {
            best
        } else {
            match best {
                None => Some(n - 1),
                Some(b) => if usb[n - 1] && !usb[b] {
                    Some(n - 1)
                } else {
                    best
                },
            }
        }
    }
}

/// Which buses are USB.
pub open spec fn usb_flags(buses: Seq<Bus>) -> Seq<bool> {
    Seq::new(buses.len(), |i: int| buses[i] == Bus::Usb)
}

/// The node to write to. Prefers USB when the same pad appears on both buses.
pub fn choose_node(ids: &[String], buses: &[Bus], target: &str) -> (r: Option<usize>)
    requires
        ids@.len() == buses@.len(),
    ensures
        match r {
            Some(i) => chosen_node(text::views(ids@), usb_flags(buses@), target@, ids@.len())
                == Some(i as int) && i < ids@.len(),
            None => chosen_node(text::views(ids@), usb_flags(buses@), target@, ids@.len()) is None,
        },
{
    let ghost iv = text::views(ids@);
    let ghost uv = usb_flags(buses@);
    let mut best: Option<usize> = None;
    let mut i: usize = 0;
    while i < ids.len()
        invariant
            i <= ids@.len(),
            ids@.len() == buses@.len(),
            iv == text::views(ids@),
            uv == usb_flags(buses@),
            match best {
                Some(b) => chosen_node(iv, uv, target@, i as nat) == Some(b as int) && b < i,
                None => chosen_node(iv, uv, target@, i as nat) is None,
            },
        decreases ids@.len() - i,
    {
        if text::str_eq(ids[i].as_str(), target) {
            match best {
                None => {
                    best = Some(i);
                },
                Some(b) => {
                    if matches!(buses[i], Bus::Usb) && !matches!(buses[b], Bus::Usb) {
                        best = Some(i);
                    }
                },
            }
        }
        i = i + 1;
    }
    best
}

/// The chosen node is one of the pad, and it is on USB whenever the pad is on USB.
pub proof fn law_usb_is_preferred(ids: Seq<Seq<char>>, usb: Seq<bool>, target: Seq<char>, n: nat)
    requires
        n <= ids.len(),
        ids.len() == usb.len(),
    ensures
        match chosen_node(ids, usb, target, n) {
            Some(b) => 0 <= b < n && ids[b] == target && (forall|i: int|
                0 <= i < n && #[trigger] ids[i] == target && usb[i] ==> usb[b]),
            None => forall|i: int| 0 <= i < n ==> #[trigger] ids[i] != target,
        },
    decreases n,
{
    if n > 0 {
        law_usb_is_preferred(ids, usb, target, (n - 1) as nat);
    }
}

/// Chooses the node of a pad among the opened ones and begins to set its color.
pub fn apply_lightbar_rgb(
    state: &mut LightbarState,
    serial: &str,
    color: Rgb,
    ids: &[String],
    buses: &[Bus],
) -> (r: Result<(usize, ApplyPlan), String>)
    requires
        ids@.len() == buses@.len(),
    ensures
        ({
            let key = claim_key(serial@);
            let node = chosen_node(text::views(ids@), usb_flags(buses@), key, ids@.len());
            match r {
                Ok(p) => {
                    &&& node == Some(p.0 as int)
                    &&& p.1@ == first_plan(
                        !old(state).claimed@.contains(claim_key(key)),
                        color,
                        buses@[p.0 as int] == Bus::Bluetooth,
                        old(state).seq,
                    )
                    &&& final(state).claimed@ == old(state).claimed@.insert(claim_key(key))
                    &&& final(state).seq == next_seq(
                        buses@[p.0 as int] == Bus::Bluetooth,
                        old(state).seq,
                    )
                },
                Err(m) => {
                    &&& node is None
                    &&& m@ == "controller "@ + serial@ + " not found"@
                    &&& final(state).claimed@ == old(state).claimed@
                    &&& final(state).seq == old(state).seq
                },
            }
        }),
        final(state).automatic == old(state).automatic,
{
    let target = identity::normalize_identity(serial);
    match choose_node(ids, buses, target.as_str()) {
        Some(i) => {
            let bluetooth = matches!(buses[i], Bus::Bluetooth);
            let plan = apply_on_open_device(state, target.as_str(), color, bluetooth);
            Ok((i, plan))
        },
        None => Err(text::cat3("controller ", serial, " not found")),
    }
}

/// Message for a lightbar that could not be set.
pub fn warn_lightbar(product: &str, err: &str) -> (r: String)
    ensures
        r@ == "failed to set lightbar on "@ + product@ + ": "@ + err@,
{
    let head = text::cat3("failed to set lightbar on ", product, ": ");
    text::cat2(head.as_str(), err)
}

} // verus!
