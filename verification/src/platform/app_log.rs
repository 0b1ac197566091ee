//! Lines and limits of the log files.
use crate::text;
use vstd::prelude::*;
use vstd::string::StringExecFns;
use vstd::utf8;

verus! {

/// Size at which `app.log` is rotated.
pub const MAX_LOG_BYTES: u64 = 1000000;

/// Size at which `hid-trace.log` is rotated.
pub const MAX_HID_TRACE_BYTES: u64 = 16000000;

/// Trace writes that take this long report themselves.
pub const SLOW_TRACE_MS: u64 = 50;

/// Longest backtrace, in bytes, that goes to the log.
pub const MAX_BACKTRACE_BYTES: usize = 4000;

/// Level of a log line.
#[derive(Debug, Clone, Copy, PartialEq, Eq, Structural)]
pub enum Level {
    Info,
    Warn,
    Error,
}

impl Level {
    /// Tag of the level.
    pub open spec fn tag(self) -> Seq<char> {
        match self {
            Level::Info => "INFO"@,
            Level::Warn => "WARN"@,
            Level::Error => "ERROR"@,
        }
    }
}

/// A line of `app.log`.
pub open spec fn line_text(secs: nat, level: Level, message: Seq<char>) -> Seq<char> {
    "["@ + text::dec(secs) + "] "@ + level.tag() + ": "@ + message + "\n"@
}

/// A line of `app.log`.
pub fn log_line(epoch_secs: u64, level: Level, message: &str) -> (r: String)
    ensures
        r@ == line_text(epoch_secs as nat, level, message@),
{
    let mut r = text::own("[");
    text::push_dec(&mut r, epoch_secs);
    r.append("] ");
    r.append(
        match level {
            Level::Info => "INFO",
            Level::Warn => "WARN",
            Level::Error => "ERROR",
        },
    );
    r.append(": ");
    r.append(message);
    r.append("\n");
    r
}

/// A line of `hid-trace.log`.
pub fn trace_line(epoch_ms: u64, message: &str) -> (r: String)
    ensures
        r@ == "["@ + text::dec(epoch_ms as nat) + "] "@ + message@ + "\n"@,
{
    let mut r = text::own("[");
    text::push_dec(&mut r, epoch_ms);
    r.append("] ");
    r.append(message);
    r.append("\n");
    r
}

/// What a slow trace write reports.
pub fn slow_trace_message(elapsed_ms: u64) -> (r: Option<String>)
    ensures
        match r {
            Some(m) => elapsed_ms >= SLOW_TRACE_MS && m@ == "hid-diag: slow op=hid_trace_io ms="@
                + text::dec(elapsed_ms as nat),
            None => elapsed_ms < SLOW_TRACE_MS,
        },
{
    if elapsed_ms < SLOW_TRACE_MS {
        return None;
    }
    let mut r = text::own("hid-diag: slow op=hid_trace_io ms=");
    text::push_dec(&mut r, elapsed_ms);
    Some(r)
}

/// Whether a file of this size is rotated before it is written.
pub fn rotate_if_needed(len: u64, max_bytes: u64) -> (r: bool)
    ensures
        r == (len >= max_bytes),
{
    len >= max_bytes
}

/// First line of a session.
pub fn session_line(name: &str, package: &str, version: &str, session_id: u64) -> (r: String)
    ensures
        r@ == name@ + " ("@ + package@ + ") "@ + version@ + " starting session="@ + text::dec(
            session_id as nat,
        ),
{
    let mut r = text::own(name);
    r.append(" (");
    r.append(package);
    r.append(") ");
    r.append(version);
    r.append(" starting session=");
    text::push_dec(&mut r, session_id);
    r
}

/// Line for a hitch that the user marked.
pub fn hitch_line(session_id: u64, up_ms: u64, extra: &str) -> (r: String)
    ensures
        r@ == "HITCH_MARK session="@ + text::dec(session_id as nat) + " up_ms="@ + text::dec(
            up_ms as nat,
        ) + (if extra@.len() == 0 {
            seq![]
        } else {
            " "@ + extra@
        }),
{
    let mut r = text::own("HITCH_MARK session=");
    text::push_dec(&mut r, session_id);
    r.append(" up_ms=");
    text::push_dec(&mut r, up_ms);
    if !extra.is_empty() {
        let ghost before = r@;
        r.append(" ");
        r.append(extra);
        assert(r@ =~= before + (" "@ + extra@));
    } else {
        assert(r@ =~= r@ + Seq::<char>::empty());
    }
    r
}

/// What a marked hitch says of the input: where it was marked, and the state of the snapshot.
pub fn hitch_report(
    kind: &str,
    source: &str,
    extra: Option<&str>,
    pads: usize,
    reason: &str,
    age_ms: u64,
    seq: u64,
    context: &str,
) -> (r: String)
    ensures
        r@ == "kind="@ + kind@ + " source="@ + source@ + (match extra {
            Some(e) => " "@ + e@,
            None => seq![],
        }) + " pads="@ + text::dec(pads as nat) + " reason="@ + reason@ + " age_ms="@ + text::dec(
            age_ms as nat,
        ) + " seq="@ + text::dec(seq as nat) + " "@ + context@,
{
    let mut r = text::cat2("kind=", kind);
    r.append(" source=");
    r.append(source);
    let ghost before = r@;
    if let Some(e) = extra {
        r.append(" ");
        r.append(e);
        assert(r@ =~= before + (" "@ + e@));
    } else {
        assert(r@ =~= before + Seq::<char>::empty());
    }
    r.append(" pads=");
    text::push_dec(&mut r, pads as u64);
    r.append(" reason=");
    r.append(reason);
    r.append(" age_ms=");
    text::push_dec(&mut r, age_ms);
    r.append(" seq=");
    text::push_dec(&mut r, seq);
    r.append(" ");
    r.append(context);
    r
}

/// Line for a panic.
pub fn panic_line(location: &str, payload: &str) -> (r: String)
    ensures
        r@ == "PANIC at "@ + location@ + ": "@ + payload@,
{
    let mut r = text::cat2("PANIC at ", location);
    r.append(": ");
    r.append(payload);
    r
}

/// Length of a text in UTF-8.
pub open spec fn utf8_len(s: Seq<char>) -> nat {
    utf8::encode_utf8(s).len()
}

/// Whether `n` characters are the longest prefix of a text within the backtrace limit.
pub open spec fn longest_fit(s: Seq<char>, n: int) -> bool {
    &&& 0 <= n <= s.len()
    &&& utf8_len(s.take(n)) <= MAX_BACKTRACE_BYTES
    &&& n < s.len() ==> utf8_len(s.take(n + 1)) > MAX_BACKTRACE_BYTES
}

proof fn lemma_utf8_push(s: Seq<char>, c: char)
    ensures
        utf8_len(s.push(c)) == utf8_len(s) + utf8::encode_scalar(c as u32).len(),
    decreases s.len(),
{
    let t = s.push(c);
    if s.len() == 0 {
        assert(t.drop_first() =~= Seq::<char>::empty());
        assert(t[0] == c);
        reveal_with_fuel(utf8::encode_utf8, 2);
    } else {
        assert(t.drop_first() =~= s.drop_first().push(c));
        assert(t[0] == s[0]);
        lemma_utf8_push(s.drop_first(), c);
    }
}

proof fn lemma_utf8_grows(s: Seq<char>, n: int)
    requires
        0 <= n <= s.len(),
    ensures
        utf8_len(s.take(n)) <= utf8_len(s),
    decreases s.len() - n,
{
    if n < s.len() {
        assert(s.take(n + 1) =~= s.take(n).push(s[n]));
        lemma_utf8_push(s.take(n), s[n]);
        lemma_utf8_grows(s, n + 1);
    } else {
        assert(s.take(n) == s);
    }
}

/// Bytes of a character in UTF-8.
fn char_bytes(c: char) -> (r: usize)
    ensures
        r == utf8::encode_scalar(c as u32).len(),
        1 <= r <= 4,
{
    let n: u32 = c as u32;
    if n < 0x80 {
        1
    } else if n < 0x800 {
        2
    } else if n < 0x10000 {
        3
    } else {
        4
    }
}

/// A backtrace short enough for the log: the longest prefix that fits, marked as cut.
pub fn backtrace_capped(full: &str) -> (r: String)
    ensures
        if utf8_len(full@) <= MAX_BACKTRACE_BYTES {
            r@ == full@
        } else {
            exists|n: int|
                #![trigger longest_fit(full@, n)]
                longest_fit(full@, n) && r@ == full@.take(n) + "…(truncated)"@
        },
{
    let cs = text::chars_of(full);
    let mut used: usize = 0;
    let mut n: usize = 0;
    assert(full@.take(0) =~= Seq::<char>::empty());
    while n < cs.len()
        invariant
            n <= cs@.len(),
            cs@ == full@,
            used == utf8_len(full@.take(n as int)),
            used <= MAX_BACKTRACE_BYTES,
        decreases cs@.len() - n,
    {
        proof {
            assert(full@.take(n + 1) =~= full@.take(n as int).push(full@[n as int]));
            lemma_utf8_push(full@.take(n as int), full@[n as int]);
        }
        let more: usize = char_bytes(cs[n]);
        if used + more > MAX_BACKTRACE_BYTES {
            let head = text::slice_to_vec_range(cs.as_slice(), 0, n);
            assert(head@ =~= full@.take(n as int));
            proof {
                lemma_utf8_grows(full@, n + 1);
                assert(longest_fit(full@, n as int));
            }
            let mut out = text::to_text(head.as_slice());
            out.append("…(truncated)");
            return out;
        }
        used = used + more;
        n = n + 1;
    }
    assert(full@.take(n as int) =~= full@);
    text::own(full)
}

} // verus!
