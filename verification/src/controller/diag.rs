//! Diagnostics of pad I/O: trace lines, the phase the worker is in, and stall detection.
use crate::controller::identity::{Bus, HidNode};
use crate::text;
use vstd::prelude::*;
use vstd::string::StringExecFns;

verus! {

/// How long a process scan stays valid (ms).
pub const STEAM_REFRESH_MS: u64 = 1000;

/// From here on an operation counts as slow (ms).
pub const SLOW_OP_MS: u64 = 50;

/// How often the watchdog looks (ms).
pub const WATCHDOG_POLL_MS: u64 = 100;

/// Bus tag for compact trace lines.
pub open spec fn bus_label(bus: Bus) -> Seq<char> {
    match bus {
        Bus::Usb => "usb"@,
        Bus::Bluetooth => "bt"@,
        _ => "?"@,
    }
}

/// Bus tag for compact trace lines.
pub fn bus_tag(bus: Bus) -> (r: &'static str)
    ensures
        r@ == bus_label(bus),
{
    match bus {
        Bus::Usb => "usb",
        Bus::Bluetooth => "bt",
        _ => "?",
    }
}

/// Fields of a node in a trace line.
pub open spec fn node_fields(d: HidNode) -> Seq<char> {
    "path="@ + d.path@ + " iface="@ + text::signed_dec(d.interface as int) + " usage_page=0x"@
        + text::hex4(d.usage_page) + " usage=0x"@ + text::hex4(d.usage) + " bus="@ + bus_label(d.bus)
}

/// Fields of a node in a trace line.
pub fn device_fields(d: &HidNode) -> (r: String)
    ensures
        r@ == node_fields(*d),
{
    let mut m = text::cat2("path=", d.path.as_str());
    m.append(" iface=");
    text::push_signed(&mut m, d.interface);
    m.append(" usage_page=0x");
    text::push_hex4(&mut m, d.usage_page);
    m.append(" usage=0x");
    text::push_hex4(&mut m, d.usage);
    m.append(" bus=");
    m.append(bus_tag(d.bus));
    m
}

// ---------------------------------------------------------------------------
// Process scans
// ---------------------------------------------------------------------------

/// Last scan for a process whose presence explains pad trouble.
#[derive(Debug, Clone, Copy, PartialEq, Eq, Structural)]
pub struct SteamCache {
    pub steam: bool,
    pub refreshed_at: Option<u64>,
}

impl SteamCache {
    /// Whether the last scan still holds at `now`.
    pub open spec fn fresh(self, now: u64) -> bool {
        self.refreshed_at matches Some(t) && now - t < STEAM_REFRESH_MS
    }

    /// Notes a scan.
    pub fn refresh(&mut self, now: u64, steam: bool)
        ensures
            *final(self) == (SteamCache { steam, refreshed_at: Some(now) }),
    {
        self.steam = steam;
        self.refreshed_at = Some(now);
    }
}

/// What the last scan found, or nothing when it is too old and a new one is needed.
pub fn steam_present(cache: &SteamCache, now: u64) -> (r: Option<bool>)
    ensures
        r == if cache.fresh(now) {
            Some(cache.steam)
        } else {
            None
        },
{
    match cache.refreshed_at {
        Some(t) => if now < t || now - t < STEAM_REFRESH_MS {
            Some(cache.steam)
        } else {
            None
        },
        None => None,
    }
}

/// `1` or `0`.
pub open spec fn flag(b: bool) -> Seq<char> {
    if b {
        "1"@
    } else {
        "0"@
    }
}

fn flag_str(b: bool) -> (r: &'static str)
    ensures
        r@ == flag(b),
{
    if b {
        "1"
    } else {
        "0"
    }
}

/// Context of a success in a trace line.
pub fn steam_tag(steam: bool) -> (r: String)
    ensures
        r@ == "steam="@ + flag(steam),
{
    text::cat2("steam=", flag_str(steam))
}

/// Context of a failure in a trace line.
pub open spec fn failure_text(steam: bool, foreground: Seq<char>, fullscreen: bool) -> Seq<char> {
    "steam="@ + flag(steam) + " fg="@ + foreground + " fs="@ + flag(fullscreen)
}

/// Context of a failure in a trace line; `?` stands for an unknown foreground process.
pub fn failure_context(steam: bool, foreground: Option<&str>, fullscreen: bool) -> (r: String)
    ensures
        r@ == failure_text(
            steam,
            match foreground {
                Some(f) => f@,
                None => "?"@,
            },
            fullscreen,
        ),
{
    let mut m = text::cat2("steam=", flag_str(steam));
    m.append(" fg=");
    m.append(
        match foreground {
            Some(f) => f,
            None => "?",
        },
    );
    m.append(" fs=");
    m.append(flag_str(fullscreen));
    m
}

// ---------------------------------------------------------------------------
// Trace lines
// ---------------------------------------------------------------------------

/// Outcome part of a trace line: `ok` or the error, then the context.
pub open spec fn outcome_text(result: Result<Seq<char>, Seq<char>>, context: Seq<char>) -> Seq<
    char,
> {
    match result {
        Ok(extra) => " ok"@ + extra + " "@ + context,
        Err(err) => " err="@ + err + " "@ + context,
    }
}

/// Trace line of an open.
pub fn trace_open(
    caller: &str,
    node: &HidNode,
    serial_hint: &str,
    ms: u64,
    result: Result<(), &str>,
    context: &str,
) -> (r: String)
    ensures
        r@ == "open caller="@ + caller@ + " serial="@ + (if serial_hint@.len() == 0 {
            "-"@
        } else {
            serial_hint@
        }) + " "@ + node_fields(*node) + " ms="@ + text::dec(ms as nat) + outcome_text(
            match result {
                Ok(_) => Ok(seq![]),
                Err(e) => Err(e@),
            },
            context@,
        ),
{
    let mut m = text::cat2("open caller=", caller);
    m.append(" serial=");
    if serial_hint.is_empty() {
        m.append("-");
    } else {
        m.append(serial_hint);
    }
    m.append(" ");
    let fields = device_fields(node);
    m.append(fields.as_str());
    m.append(" ms=");
    text::push_dec(&mut m, ms);
    let ghost head = m@;
    match result {
        Ok(_) => {
            m.append(" ok");
            m.append(" ");
            m.append(context);
            assert(m@ =~= head + (" ok"@ + Seq::<char>::empty() + " "@ + context@));
        },
        Err(err) => {
            m.append(" err=");
            m.append(err);
            m.append(" ");
            m.append(context);
            assert(m@ =~= head + (" err="@ + err@ + " "@ + context@));
        },
    }
    m
}

/// `true` or `false`.
pub open spec fn truth(b: bool) -> Seq<char> {
    if b {
        "true"@
    } else {
        "false"@
    }
}

fn truth_str(b: bool) -> (r: &'static str)
    ensures
        r@ == truth(b),
{
    if b {
        "true"
    } else {
        "false"
    }
}

/// Color part of a trace line.
pub open spec fn rgb_text(rgb: Option<(u8, u8, u8)>) -> Seq<char> {
    match rgb {
        Some(c) => " rgb="@ + text::hex2(c.0) + text::hex2(c.1) + text::hex2(c.2),
        None => seq![],
    }
}

/// What is traced of a lightbar write.
#[derive(Debug, Clone, Copy)]
pub struct WriteTrace<'a> {
    pub caller: &'a str,
    pub phase: &'a str,
    pub serial: &'a str,
    pub bus: &'a str,
    pub rgb: Option<(u8, u8, u8)>,
    pub claim_needed: bool,
    pub retry: bool,
    pub ms: u64,
}

/// Trace line of a lightbar write; a success names the bytes written and expected.
pub fn trace_write(t: &WriteTrace, result: Result<(usize, usize), &str>, context: &str) -> (r:
    String)
    ensures
        r@ == "write caller="@ + t.caller@ + " phase="@ + t.phase@ + " serial="@ + t.serial@
            + " bus="@ + t.bus@ + rgb_text(t.rgb) + " claim="@ + truth(t.claim_needed) + " retry="@
            + truth(t.retry) + " ms="@ + text::dec(t.ms as nat) + outcome_text(
            match result {
                Ok(n) => Ok(
                    " bytes="@ + text::dec(n.0 as nat) + " expected="@ + text::dec(n.1 as nat),
                ),
                Err(e) => Err(e@),
            },
            context@,
        ),
{
    let mut m = text::cat2("write caller=", t.caller);
    m.append(" phase=");
    m.append(t.phase);
    m.append(" serial=");
    m.append(t.serial);
    m.append(" bus=");
    m.append(t.bus);
    let ghost before = m@;
    match t.rgb {
        Some((r, g, b)) => {
            m.append(" rgb=");
            text::push_hex2(&mut m, r);
            text::push_hex2(&mut m, g);
            text::push_hex2(&mut m, b);
        },
        None => {},
    }
    assert(m@ =~= before + rgb_text(t.rgb));
    m.append(" claim=");
    m.append(truth_str(t.claim_needed));
    m.append(" retry=");
    m.append(truth_str(t.retry));
    m.append(" ms=");
    text::push_dec(&mut m, t.ms);
    let ghost head = m@;
    match result {
        Ok((bytes, expected)) => {
            m.append(" ok");
            m.append(" bytes=");
            text::push_dec(&mut m, bytes as u64);
            m.append(" expected=");
            text::push_dec(&mut m, expected as u64);
            m.append(" ");
            m.append(context);
            assert(m@ =~= head + (" ok"@ + (" bytes="@ + text::dec(bytes as nat) + " expected="@
                + text::dec(expected as nat)) + " "@ + context@));
        },
        Err(err) => {
            m.append(" err=");
            m.append(err);
            m.append(" ");
            m.append(context);
            assert(m@ =~= head + (" err="@ + err@ + " "@ + context@));
        },
    }
    m
}

/// Trace line of an input read.
pub fn trace_read(
    caller: &str,
    serial: &str,
    bus: &str,
    ms: u64,
    detail: &str,
    context: &str,
) -> (r: String)
    ensures
        r@ == "read caller="@ + caller@ + " serial="@ + serial@ + " bus="@ + bus@ + " ms="@
            + text::dec(ms as nat) + " "@ + detail@ + " "@ + context@,
{
    let mut m = text::cat2("read caller=", caller);
    m.append(" serial=");
    m.append(serial);
    m.append(" bus=");
    m.append(bus);
    m.append(" ms=");
    text::push_dec(&mut m, ms);
    m.append(" ");
    m.append(detail);
    m.append(" ");
    m.append(context);
    m
}

// ---------------------------------------------------------------------------
// Phases
// ---------------------------------------------------------------------------

/// What the worker is doing, since when, and how often it made progress.
#[derive(Debug, Clone, Copy)]
pub struct WorkerPhase {
    pub op: &'static str,
    pub entered_at: Option<u64>,
    pub last_progress: Option<u64>,
    pub tick: u64,
}

/// The tick behind a tick.
pub open spec fn next_tick(tick: u64) -> u64 {
    if tick == u64::MAX {
        0
    } else {
        (tick + 1) as u64
    }
}

fn bump(tick: u64) -> (r: u64)
    ensures
        r == next_tick(tick),
{
    if tick == u64::MAX {
        0
    } else {
        tick + 1
    }
}

/// An operation that was entered.
#[derive(Debug, Clone, Copy)]
pub struct OpGuard {
    pub name: &'static str,
    pub started: u64,
    pub silent: bool,
}

/// Enters an operation.
pub fn enter_op(phase: &mut WorkerPhase, name: &'static str, silent: bool, now: u64) -> (r: OpGuard)
    ensures
        r.name@ == name@,
        r.started == now,
        r.silent == silent,
        final(phase).op@ == name@,
        final(phase).entered_at == Some(now),
        final(phase).last_progress == Some(now),
        final(phase).tick == next_tick(old(phase).tick),
{
    phase.op = name;
    phase.entered_at = Some(now);
    phase.last_progress = Some(now);
    phase.tick = bump(phase.tick);
    OpGuard { name, started: now, silent }
}

/// Leaves an operation; a slow one that is not silent gives a line.
pub fn leave_op(phase: &mut WorkerPhase, guard: &OpGuard, now: u64) -> (r: Option<String>)
    ensures
        final(phase).op@ == if old(phase).op@ == guard.name@ {
            "idle"@
        } else {
            old(phase).op@
        },
        final(phase).entered_at == if old(phase).op@ == guard.name@ {
            None
        } else {
            old(phase).entered_at
        },
        final(phase).last_progress == Some(now),
        final(phase).tick == next_tick(old(phase).tick),
        match r {
            Some(line) => !guard.silent && now - guard.started >= SLOW_OP_MS && line@
                == "hid-diag: slow op="@ + guard.name@ + " ms="@ + text::dec(
                (now - guard.started) as nat,
            ),
            None => guard.silent || now - guard.started < SLOW_OP_MS,
        },
{
    if text::str_eq(phase.op, guard.name) {
        phase.op = "idle";
        phase.entered_at = None;
    }
    phase.last_progress = Some(now);
    phase.tick = bump(phase.tick);
    let ms: u64 = now.saturating_sub(guard.started);
    if !guard.silent && ms >= SLOW_OP_MS {
        let mut m = text::cat2("hid-diag: slow op=", guard.name);
        m.append(" ms=");
        text::push_dec(&mut m, ms);
        Some(m)
    } else {
        None
    }
}

/// Notes progress; outside any operation the label becomes what the worker is doing.
pub fn note_progress(phase: &mut WorkerPhase, label: &'static str, now: u64)
    ensures
        final(phase).op@ == if old(phase).entered_at is None {
            label@
        } else {
            old(phase).op@
        },
        final(phase).entered_at == old(phase).entered_at,
        final(phase).last_progress == Some(now),
        final(phase).tick == next_tick(old(phase).tick),
{
    if phase.entered_at.is_none() {
        phase.op = label;
    }
    phase.last_progress = Some(now);
    phase.tick = bump(phase.tick);
}

// ---------------------------------------------------------------------------
// Watchdog
// ---------------------------------------------------------------------------

/// What the watchdog saw last.
#[derive(Debug, Clone, Copy, PartialEq, Eq, Structural)]
pub struct Watchdog {
    pub last_logged_tier: u64,
    pub last_tick: u64,
}

/// A stall worth a line.
#[derive(Debug, Clone, Copy, PartialEq, Eq, Structural)]
pub struct Stall {
    pub in_op: bool,
    pub gap_ms: u64,
    pub tier: u64,
}

/// Time without progress at `now`.
pub open spec fn stall_gap(phase: WorkerPhase, now: u64) -> int {
    let since = match phase.entered_at {
        Some(t) => Some(t),
        None => phase.last_progress,
    };
    match since {
        Some(t) => if now >= t {
            now - t
        } else {
            0
        },
        None => 0,
    }
}

/// Largest reporting step that a gap has reached.
pub open spec fn stall_tier(gap: int) -> int {
    if gap >= 5000 {
        5000
    } else if gap >= 2000 {
        2000
    } else if gap >= 1000 {
        1000
    } else if gap >= 500 {
        500
    } else if gap >= 250 {
        250
    } else {
        0
    }
}

impl Watchdog {
    /// Watchdog behind a look at the worker, and the stall it reports.
    pub open spec fn looked(self, phase: WorkerPhase, now: u64) -> (Watchdog, Option<Stall>) {
        let gap = stall_gap(phase, now);
        if phase.tick != self.last_tick || gap < 250 {
            (Watchdog { last_logged_tier: 0, last_tick: phase.tick }, None)
        } else if stall_tier(gap) <= self.last_logged_tier {
            (self, None)
        } else {
            (
                Watchdog { last_logged_tier: stall_tier(gap) as u64, ..self },
                Some(
                    Stall {
                        in_op: phase.entered_at is Some,
                        gap_ms: gap as u64,
                        tier: stall_tier(gap) as u64,
                    },
                ),
            )
        }
    }

    /// Looks at the worker: a stall is reported once per step that its gap reaches, and
    /// progress starts the steps anew.
    pub fn look(&mut self, phase: &WorkerPhase, now: u64) -> (r: Option<Stall>)
        ensures
            (*final(self), r) == old(self).looked(*phase, now),
    {
        let gap_ms: u64 = match phase.entered_at {
            Some(t) => now.saturating_sub(t),
            None => match phase.last_progress {
                Some(t) => now.saturating_sub(t),
                None => 0,
            },
        };
        if phase.tick != self.last_tick || gap_ms < 250 {
            self.last_tick = phase.tick;
            self.last_logged_tier = 0;
            return None;
        }
        let tier: u64 = if gap_ms >= 5000 {
            5000
        } else if gap_ms >= 2000 {
            2000
        } else if gap_ms >= 1000 {
            1000
        } else if gap_ms >= 500 {
            500
        } else {
            250
        };
        if tier <= self.last_logged_tier {
            return None;
        }
        self.last_logged_tier = tier;
        Some(Stall { in_op: phase.entered_at.is_some(), gap_ms, tier })
    }
}

/// Line about a stall.
pub fn stall_line(stall: &Stall, op: &str) -> (r: String)
    ensures
        r@ == "hid-diag: worker stall kind="@ + (if stall.in_op {
            "op"@
        } else {
            "idle"@
        }) + " last_op="@ + op@ + " gap_ms="@ + text::dec(stall.gap_ms as nat) + " tier="@
            + text::dec(stall.tier as nat),
{
    let mut m = text::cat2(
        "hid-diag: worker stall kind=",
        if stall.in_op {
            "op"
        } else {
            "idle"
        },
    );
    m.append(" last_op=");
    m.append(op);
    m.append(" gap_ms=");
    text::push_dec(&mut m, stall.gap_ms);
    m.append(" tier=");
    text::push_dec(&mut m, stall.tier);
    m
}

} // verus!
