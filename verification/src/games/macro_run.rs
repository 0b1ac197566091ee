//! Running a macro: what to send to the game, when, and what to let go of in the end.
use crate::games::macro_text;
use crate::games::macro_text::{Key, KeyChord, Step};
use crate::process_match::has_pid;
use crate::text;
use vstd::prelude::*;
use vstd::string::StringExecFns;

verus! {

/// How long focusing waits for the game to come to the front.
pub const FOCUS_POLL_CAP_MS: u64 = 400;

/// Pause between two looks at the foreground window.
pub const FOCUS_POLL_MS: u64 = 20;

/// Pause after focusing.
pub const FOCUS_SETTLE_MS: u64 = 80;

/// Pause after a key press.
pub const KEY_GAP_MS: u64 = 40;

pub const VK_CONTROL: u16 = 0x11;

pub const VK_MENU: u16 = 0x12;

pub const VK_SHIFT: u16 = 0x10;

pub const VK_LWIN: u16 = 0x5B;

/// Why a macro stopped.
#[derive(Debug, Clone, PartialEq, Eq)]
pub enum RunError {
    NoWindow,
    FocusFailed,
    LostFocus,
    Unsupported,
    SendFailed(String),
}

/// Model of [`RunError`].
#[verifier::ext_equal]
pub enum RunErrorView {
    NoWindow,
    FocusFailed,
    LostFocus,
    Unsupported,
    SendFailed(Seq<char>),
}

impl View for RunError {
    type V = RunErrorView;

    open spec fn view(&self) -> RunErrorView {
        match *self {
            RunError::NoWindow => RunErrorView::NoWindow,
            RunError::FocusFailed => RunErrorView::FocusFailed,
            RunError::LostFocus => RunErrorView::LostFocus,
            RunError::Unsupported => RunErrorView::Unsupported,
            RunError::SendFailed(s) => RunErrorView::SendFailed(s@),
        }
    }
}

/// Model of an optional error.
pub open spec fn error_view(e: Option<RunError>) -> Option<RunErrorView> {
    match e {
        Some(e) => Some(e@),
        None => None,
    }
}

/// Message of an error.
pub open spec fn error_message(e: RunErrorView) -> Seq<char> {
    match e {
        RunErrorView::NoWindow => "no visible game window"@,
        RunErrorView::FocusFailed => "could not focus game window"@,
        RunErrorView::LostFocus => "game lost foreground before keys"@,
        RunErrorView::Unsupported => "macros are Windows-only"@,
        RunErrorView::SendFailed(s) => "send failed: "@ + s,
    }
}

impl RunError {
    /// Message for the user.
    pub fn to_string(&self) -> (r: String)
        ensures
            r@ == error_message(self@),
    {
        match self {
            RunError::NoWindow => text::own("no visible game window"),
            RunError::FocusFailed => text::own("could not focus game window"),
            RunError::LostFocus => text::own("game lost foreground before keys"),
            RunError::Unsupported => text::own("macros are Windows-only"),
            RunError::SendFailed(s) => text::cat2("send failed: ", s.as_str()),
        }
    }

    /// Copy of the error.
    pub fn copy(&self) -> (r: Self)
        ensures
            r@ == self@,
    {
        match self {
            RunError::NoWindow => RunError::NoWindow,
            RunError::FocusFailed => RunError::FocusFailed,
            RunError::LostFocus => RunError::LostFocus,
            RunError::Unsupported => RunError::Unsupported,
            RunError::SendFailed(s) => RunError::SendFailed(s.clone()),
        }
    }
}

/// Outcome of a macro that ran to its end.
#[derive(Debug, Clone, Copy, PartialEq, Eq, Structural)]
pub struct RunOk {
    pub focused: bool,
}

/// One virtual key going down or up.
#[derive(Debug, Clone, Copy, PartialEq, Eq, Structural)]
pub struct KeyEvent {
    pub vk: u16,
    pub down: bool,
}

/// One thing to do while a macro runs.
#[derive(Debug, Clone, PartialEq, Eq)]
pub enum Op {
    /// Bring the game's window to the front.
    Focus,
    Sleep(u64),
    /// Go on only while the game is in front.
    NeedForeground,
    SendKeys(Vec<KeyEvent>),
    SendText(String),
    /// The key cannot be sent.
    Fail(String),
    /// Remember a key that was pressed down.
    Hold(KeyChord),
    /// Forget a key that was let go.
    Unhold(KeyChord),
}

/// Model of [`Op`].
#[verifier::ext_equal]
pub enum OpView {
    Focus,
    Sleep(u64),
    NeedForeground,
    SendKeys(Seq<KeyEvent>),
    SendText(Seq<char>),
    Fail(Seq<char>),
    Hold(KeyChord),
    Unhold(KeyChord),
}

impl View for Op {
    type V = OpView;

    open spec fn view(&self) -> OpView {
        match *self {
            Op::Focus => OpView::Focus,
            Op::Sleep(ms) => OpView::Sleep(ms),
            Op::NeedForeground => OpView::NeedForeground,
            Op::SendKeys(v) => OpView::SendKeys(v@),
            Op::SendText(s) => OpView::SendText(s@),
            Op::Fail(s) => OpView::Fail(s@),
            Op::Hold(c) => OpView::Hold(c),
            Op::Unhold(c) => OpView::Unhold(c),
        }
    }
}

/// Models of a list of operations.
pub open spec fn ops_view(v: Seq<Op>) -> Seq<OpView> {
    Seq::new(v.len(), |i: int| v[i]@)
}

// ---------------------------------------------------------------------------
// Keys
// ---------------------------------------------------------------------------

/// Upper case of an ASCII letter.
pub open spec fn ascii_upper(c: char) -> u32 {
    if 'a' <= c <= 'z' {
        (c as u32 - 32) as u32
    } else {
        c as u32
    }
}

/// Virtual-key code of a key: the low byte of a character's upper case where that is an ASCII
/// letter or digit.
pub open spec fn vk_of(key: Key) -> Option<u16> {
    match key {
        Key::Enter => Some(0x0D),
        Key::Esc => Some(0x1B),
        Key::Tab => Some(0x09),
        Key::Space => Some(0x20),
        Key::Backspace => Some(0x08),
        Key::Delete => Some(0x2E),
        Key::Up => Some(0x26),
        Key::Down => Some(0x28),
        Key::Left => Some(0x25),
        Key::Right => Some(0x27),
        Key::Home => Some(0x24),
        Key::End => Some(0x23),
        Key::PageUp => Some(0x21),
        Key::PageDown => Some(0x22),
        Key::F(n) => if 1 <= n <= 12 {
            Some((0x6F + n) as u16)
        } else {
            None
        },
        Key::Char(c) => {
            let u = ascii_upper(c) % 256;
            if 48 <= u <= 57 || 65 <= u <= 90 || 97 <= u <= 122 {
                Some(u as u16)
            } else {
                None
            }
        },
    }
}

/// Executable form of [`vk_of`].
pub fn key_vk(key: Key) -> (r: Option<u16>)
    ensures
        r == vk_of(key),
{
    match key {
        Key::Enter => Some(0x0D),
        Key::Esc => Some(0x1B),
        Key::Tab => Some(0x09),
        Key::Space => Some(0x20),
        Key::Backspace => Some(0x08),
        Key::Delete => Some(0x2E),
        Key::Up => Some(0x26),
        Key::Down => Some(0x28),
        Key::Left => Some(0x25),
        Key::Right => Some(0x27),
        Key::Home => Some(0x24),
        Key::End => Some(0x23),
        Key::PageUp => Some(0x21),
        Key::PageDown => Some(0x22),
        Key::F(n) => if 1 <= n && n <= 12 {
            Some(0x6F + n as u16)
        } else {
            None
        },
        Key::Char(c) => {
            let code: u32 = c as u32;
            let upper: u32 = if 'a' <= c && c <= 'z' {
                code - 32
            } else {
                code
            };
            let u: u32 = upper % 256;
            if (48 <= u && u <= 57) || (65 <= u && u <= 90) || (97 <= u && u <= 122) {
                Some(u as u16)
            } else {
                None
            }
        },
    }
}

/// An event for a modifier that is asked for.
pub open spec fn modifier(on: bool, vk: u16, down: bool) -> Seq<KeyEvent> {
    if on {
        seq![KeyEvent { vk, down }]
    } else {
        seq![]
    }
}

/// Modifiers of a chord going down.
pub open spec fn modifiers_down(c: KeyChord) -> Seq<KeyEvent> {
    modifier(c.ctrl, VK_CONTROL, true) + modifier(c.alt, VK_MENU, true) + modifier(
        c.shift,
        VK_SHIFT,
        true,
    ) + modifier(c.win, VK_LWIN, true)
}

/// Modifiers of a chord going up, the other way round.
pub open spec fn modifiers_up(c: KeyChord) -> Seq<KeyEvent> {
    modifier(c.win, VK_LWIN, false) + modifier(c.shift, VK_SHIFT, false) + modifier(
        c.alt,
        VK_MENU,
        false,
    ) + modifier(c.ctrl, VK_CONTROL, false)
}

/// Sending events, nothing when there are none.
pub open spec fn send(events: Seq<KeyEvent>) -> Seq<OpView> {
    if events.len() == 0 {
        seq![]
    } else {
        seq![OpView::SendKeys(events)]
    }
}

/// Message for a key without a code.
pub open spec fn no_vk_message(key: Key) -> Seq<char> {
    match key {
        Key::F(n) => "no vk for F("@ + text::dec(n as nat) + ")"@,
        _ => "no vk for key"@,
    }
}

/// Operations that press a chord down or let it go. A character without a code is typed when
/// it goes down.
pub open spec fn chord_ops(c: KeyChord, down: bool) -> Seq<OpView> {
    match vk_of(c.key) {
        Some(vk) => if down {
            send(modifiers_down(c).push(KeyEvent { vk, down: true }))
        } else {
            send(seq![KeyEvent { vk, down: false }] + modifiers_up(c))
        },
        None => match c.key {
            Key::Char(ch) => if down {
                send(modifiers_down(c)).push(OpView::SendText(seq![ch]))
            } else {
                send(modifiers_up(c))
            },
            _ => seq![OpView::Fail(no_vk_message(c.key))],
        },
    }
}

/// Operations of a step.
pub open spec fn step_ops(step: macro_text::StepView) -> Seq<OpView> {
    match step {
        macro_text::StepView::Focus => seq![OpView::Focus, OpView::Sleep(FOCUS_SETTLE_MS)],
        macro_text::StepView::Wait(ms) => seq![OpView::Sleep(ms as u64)],
        macro_text::StepView::Press(c) => seq![OpView::NeedForeground] + chord_ops(c, true)
            + chord_ops(c, false) + seq![OpView::Sleep(KEY_GAP_MS)],
        macro_text::StepView::Type(t) => seq![OpView::NeedForeground, OpView::SendText(t)],
        macro_text::StepView::KeyDown(c) => seq![OpView::NeedForeground] + chord_ops(c, true)
            + seq![OpView::Hold(c)],
        macro_text::StepView::KeyUp(c) => seq![OpView::NeedForeground] + chord_ops(c, false)
            + seq![OpView::Unhold(c)],
    }
}

/// Operations of a macro.
pub open spec fn program(steps: Seq<macro_text::StepView>) -> Seq<OpView>
    decreases steps.len(),
{
    if steps.len() == 0 {
        seq![]
    } else {
        program(steps.drop_last()) + step_ops(steps.last())
    }
}

fn push_op(out: &mut Vec<Op>, op: Op)
    ensures
        ops_view(final(out)@) == ops_view(old(out)@).push(op@),
{
    let ghost before = ops_view(out@);
    out.push(op);
    assert(ops_view(out@) =~= before.push(op@));
}

fn push_send(out: &mut Vec<Op>, events: Vec<KeyEvent>)
    ensures
        ops_view(final(out)@) == ops_view(old(out)@) + send(events@),
{
    if events.len() > 0 {
        push_op(out, Op::SendKeys(events));
    }
}

fn push_modifier(events: &mut Vec<KeyEvent>, on: bool, vk: u16, down: bool)
    ensures
        final(events)@ == old(events)@ + modifier(on, vk, down),
{
    if on {
        events.push(KeyEvent { vk, down });
    }
}

fn down_modifiers(c: KeyChord) -> (r: Vec<KeyEvent>)
    ensures
        r@ == modifiers_down(c),
{
    let mut events: Vec<KeyEvent> = Vec::new();
    push_modifier(&mut events, c.ctrl, VK_CONTROL, true);
    push_modifier(&mut events, c.alt, VK_MENU, true);
    push_modifier(&mut events, c.shift, VK_SHIFT, true);
    push_modifier(&mut events, c.win, VK_LWIN, true);
    events
}

fn push_up_modifiers(events: &mut Vec<KeyEvent>, c: KeyChord)
    ensures
        final(events)@ == old(events)@ + modifiers_up(c),
{
    push_modifier(events, c.win, VK_LWIN, false);
    push_modifier(events, c.shift, VK_SHIFT, false);
    push_modifier(events, c.alt, VK_MENU, false);
    push_modifier(events, c.ctrl, VK_CONTROL, false);
}

fn no_vk_text(key: Key) -> (r: String)
    ensures
        r@ == no_vk_message(key),
{
    match key {
        Key::F(n) => {
            let mut m = text::own("no vk for F(");
            text::push_dec(&mut m, n as u64);
            m.append(")");
            m
        },
        _ => text::own("no vk for key"),
    }
}

fn push_chord(out: &mut Vec<Op>, c: KeyChord, down: bool)
    ensures
        ops_view(final(out)@) == ops_view(old(out)@) + chord_ops(c, down),
{
    let ghost before = ops_view(out@);
    match key_vk(c.key) {
        Some(vk) => if down {
            let mut events = down_modifiers(c);
            events.push(KeyEvent { vk, down: true });
            push_send(out, events);
        } else {
            let mut events: Vec<KeyEvent> = Vec::new();
            events.push(KeyEvent { vk, down: false });
            push_up_modifiers(&mut events, c);
            assert(events@ =~= seq![KeyEvent { vk, down: false }] + modifiers_up(c));
            push_send(out, events);
        },
        None => match c.key {
            Key::Char(ch) => if down {
                push_send(out, down_modifiers(c));
                let mut t = String::new();
                t.push(ch);
                push_op(out, Op::SendText(t));
                assert(t@ =~= seq![ch]);
            } else {
                let mut events: Vec<KeyEvent> = Vec::new();
                push_up_modifiers(&mut events, c);
                assert(events@ =~= modifiers_up(c));
                push_send(out, events);
            },
            _ => {
                push_op(out, Op::Fail(no_vk_text(c.key)));
            },
        },
    }
    assert(ops_view(out@) =~= before + chord_ops(c, down));
}

fn push_step(out: &mut Vec<Op>, step: &Step)
    ensures
        ops_view(final(out)@) == ops_view(old(out)@) + step_ops(step@),
{
    let ghost before = ops_view(out@);
    match step {
        Step::Focus => {
            push_op(out, Op::Focus);
            push_op(out, Op::Sleep(FOCUS_SETTLE_MS));
        },
        Step::Wait(ms) => {
            push_op(out, Op::Sleep(*ms as u64));
        },
        Step::Press(c) => {
            push_op(out, Op::NeedForeground);
            push_chord(out, *c, true);
            push_chord(out, *c, false);
            push_op(out, Op::Sleep(KEY_GAP_MS));
        },
        Step::Type(t) => {
            push_op(out, Op::NeedForeground);
            push_op(out, Op::SendText(t.clone()));
        },
        Step::KeyDown(c) => {
            push_op(out, Op::NeedForeground);
            push_chord(out, *c, true);
            push_op(out, Op::Hold(*c));
        },
        Step::KeyUp(c) => {
            push_op(out, Op::NeedForeground);
            push_chord(out, *c, false);
            push_op(out, Op::Unhold(*c));
        },
    }
    assert(ops_view(out@) =~= before + step_ops(step@));
}

/// Operations of a macro.
pub fn compile(steps: &[Step]) -> (r: Vec<Op>)
    ensures
        ops_view(r@) == program(macro_text::steps_view(steps@)),
{
    let ghost sv = macro_text::steps_view(steps@);
    let mut out: Vec<Op> = Vec::new();
    let mut i: usize = 0;
    assert(sv.take(0) =~= Seq::<macro_text::StepView>::empty());
    assert(ops_view(out@) =~= program(sv.take(0)));
    while i < steps.len()
        invariant
            i <= steps@.len(),
            sv == macro_text::steps_view(steps@),
            ops_view(out@) == program(sv.take(i as int)),
        decreases steps@.len() - i,
    {
        assert(sv.take(i + 1).drop_last() =~= sv.take(i as int));
        assert(sv.take(i + 1).last() == steps@[i as int]@);
        push_step(&mut out, &steps[i]);
        i = i + 1;
    }
    assert(sv.take(i as int) =~= sv);
    out
}

/// Steps without focusing, for a caller that has focused already.
pub open spec fn key_steps(steps: Seq<macro_text::StepView>) -> Seq<macro_text::StepView>
    decreases steps.len(),
{
    if steps.len() == 0 {
        seq![]
    } else if steps.last() is Focus {
        key_steps(steps.drop_last())
    } else {
        key_steps(steps.drop_last()).push(steps.last())
    }
}

/// Copy of a step.
pub fn copy_step(step: &Step) -> (r: Step)
    ensures
        r@ == step@,
{
    match step {
        Step::Focus => Step::Focus,
        Step::Wait(ms) => Step::Wait(*ms),
        Step::Press(c) => Step::Press(*c),
        Step::Type(t) => Step::Type(t.clone()),
        Step::KeyDown(c) => Step::KeyDown(*c),
        Step::KeyUp(c) => Step::KeyUp(*c),
    }
}

/// Steps without focusing, for a caller that has focused already.
pub fn without_focus(steps: &[Step]) -> (r: Vec<Step>)
    ensures
        macro_text::steps_view(r@) == key_steps(macro_text::steps_view(steps@)),
{
    let ghost sv = macro_text::steps_view(steps@);
    let mut out: Vec<Step> = Vec::new();
    let mut i: usize = 0;
    assert(sv.take(0) =~= Seq::<macro_text::StepView>::empty());
    assert(macro_text::steps_view(out@) =~= key_steps(sv.take(0)));
    while i < steps.len()
        invariant
            i <= steps@.len(),
            sv == macro_text::steps_view(steps@),
            macro_text::steps_view(out@) == key_steps(sv.take(i as int)),
        decreases steps@.len() - i,
    {
        assert(sv.take(i + 1).drop_last() =~= sv.take(i as int));
        assert(sv.take(i + 1).last() == steps@[i as int]@);
        let focus = match &steps[i] {
            Step::Focus => true,
            _ => false,
        };
        if !focus {
            let s = copy_step(&steps[i]);
            let ghost before = macro_text::steps_view(out@);
            out.push(s);
            assert(macro_text::steps_view(out@) =~= before.push(s@));
        }
        i = i + 1;
    }
    assert(sv.take(i as int) =~= sv);
    out
}

// ---------------------------------------------------------------------------
// Running
// ---------------------------------------------------------------------------

/// What came of an operation.
#[derive(Debug, Clone, Copy, PartialEq, Eq, Structural)]
pub enum Reply {
    /// Nothing to tell (a pause, bookkeeping).
    Done,
    /// No window of the game was found.
    NoWindow,
    /// Whether the game is in front.
    Foreground(bool),
    /// How many of the inputs were taken.
    Sent(u32),
}

/// A macro while it runs.
#[derive(Debug, Clone, PartialEq, Eq)]
pub struct MacroRun {
    pub ops: Vec<Op>,
    pub at: usize,
    /// Keys that were pressed down and not let go.
    pub held: Vec<KeyChord>,
    pub focused: bool,
    pub error: Option<RunError>,
}

/// Message for inputs that were not all taken.
pub open spec fn short_message(lead: Seq<char>, sent: u32, asked: nat) -> Seq<char> {
    lead + text::dec(sent as nat) + "/"@ + text::dec(asked)
}

/// Error that a reply to an operation means.
pub open spec fn error_of(op: OpView, reply: Reply) -> Option<RunErrorView> {
    match op {
        OpView::Focus => match reply {
            Reply::NoWindow => Some(RunErrorView::NoWindow),
            Reply::Foreground(true) => None,
            _ => Some(RunErrorView::FocusFailed),
        },
        OpView::NeedForeground => if reply == Reply::Foreground(true) {
            None
        } else {
            Some(RunErrorView::LostFocus)
        },
        OpView::SendKeys(events) => match reply {
            Reply::Sent(n) => if n == events.len() {
                None
            } else {
                Some(
                    RunErrorView::SendFailed(
                        short_message("SendInput returned "@, n, events.len()),
                    ),
                )
            },
            _ => None,
        },
        OpView::SendText(t) => match reply {
            Reply::Sent(n) => if n == 2 * text::utf16(t).len() {
                None
            } else {
                Some(
                    RunErrorView::SendFailed(
                        short_message(
                            "SendInput unicode returned "@,
                            n,
                            2 * text::utf16(t).len(),
                        ),
                    ),
                )
            },
            _ => None,
        },
        OpView::Fail(m) => Some(RunErrorView::SendFailed(m)),
        _ => None,
    }
}

/// Keys held once an operation succeeded.
pub open spec fn held_after(op: OpView, held: Seq<KeyChord>) -> Seq<KeyChord> {
    match op {
        OpView::Hold(c) => held.push(c),
        OpView::Unhold(c) => held.filter(|h: KeyChord| h != c),
        _ => held,
    }
}

fn short_text(lead: &str, sent: u32, asked: u64) -> (r: String)
    ensures
        r@ == short_message(lead@, sent, asked as nat),
{
    let mut m = text::own(lead);
    text::push_dec(&mut m, sent as u64);
    m.append("/");
    text::push_dec(&mut m, asked);
    m
}

fn reply_error(op: &Op, reply: Reply) -> (r: Option<RunError>)
    ensures
        error_view(r) == error_of(op@, reply),
{
    match op {
        Op::Focus => match reply {
            Reply::NoWindow => Some(RunError::NoWindow),
            Reply::Foreground(true) => None,
            _ => Some(RunError::FocusFailed),
        },
        Op::NeedForeground => match reply {
            Reply::Foreground(true) => None,
            _ => Some(RunError::LostFocus),
        },
        Op::SendKeys(events) => match reply {
            Reply::Sent(n) => if n as usize == events.len() {
                None
            } else {
                Some(
                    RunError::SendFailed(
                        short_text("SendInput returned ", n, events.len() as u64),
                    ),
                )
            },
            _ => None,
        },
        Op::SendText(t) => match reply {
            Reply::Sent(n) => {
                let asked = text_inputs(t.as_str());
                if n as usize == asked.len() {
                    None
                } else {
                    Some(
                        RunError::SendFailed(
                            short_text("SendInput unicode returned ", n, asked.len() as u64),
                        ),
                    )
                }
            },
            _ => None,
        },
        Op::Fail(m) => Some(RunError::SendFailed(m.clone())),
        _ => None,
    }
}

/// Inputs that type code units: each goes down, then up.
pub open spec fn unit_inputs(units: Seq<u16>) -> Seq<(u16, bool)> {
    Seq::new(2 * units.len(), |i: int| (units[i / 2], i % 2 == 0))
}

/// Inputs that type a text: each UTF-16 unit goes down, then up.
pub fn text_inputs(t: &str) -> (r: Vec<(u16, bool)>)
    ensures
        r@ == unit_inputs(text::utf16(t@)),
{
    let units = text::utf16_units(t);
    let mut out: Vec<(u16, bool)> = Vec::new();
    let mut i: usize = 0;
    while i < units.len()
        invariant
            i <= units@.len(),
            out@.len() == 2 * i,
            forall|k: int| 0 <= k < 2 * i ==> #[trigger] out@[k] == (units@[k / 2], k % 2 == 0),
        decreases units@.len() - i,
    {
        out.push((units[i], true));
        out.push((units[i], false));
        i = i + 1;
    }
    assert(out@ =~= unit_inputs(units@));
    out
}

fn without_chord(held: &[KeyChord], c: KeyChord) -> (r: Vec<KeyChord>)
    ensures
        r@ == held@.filter(|h: KeyChord| h != c),
{
    let ghost keep = |h: KeyChord| h != c;
    let mut out: Vec<KeyChord> = Vec::new();
    let mut i: usize = 0;
    proof {
        reveal(Seq::filter);
        assert(out@ =~= held@.take(0).filter(keep));
    }
    while i < held.len()
        invariant
            i <= held@.len(),
            keep == (|h: KeyChord| h != c),
            out@ == held@.take(i as int).filter(keep),
        decreases held@.len() - i,
    {
        proof {
            reveal(Seq::filter);
            assert(held@.take(i + 1).drop_last() == held@.take(i as int));
            assert(held@.take(i + 1).last() == held@[i as int]);
        }
        if held[i] != c {
            out.push(held[i]);
        }
        i = i + 1;
    }
    assert(held@.take(i as int) == held@);
    out
}

impl MacroRun {
    /// Whether there is an operation to do.
    pub open spec fn running(self) -> bool {
        self.error is None && self.at < self.ops@.len()
    }

    /// A macro at its first operation; without a process of the game it ends at once.
    pub fn begin(steps: &[Step], game_runs: bool) -> (r: Self)
        ensures
            ops_view(r.ops@) == program(macro_text::steps_view(steps@)),
            r.at == 0,
            r.held@.len() == 0,
            !r.focused,
            error_view(r.error) == (if game_runs {
                None
            } else {
                Some(RunErrorView::NoWindow)
            }),
    {
        MacroRun {
            ops: compile(steps),
            at: 0,
            held: Vec::new(),
            focused: false,
            error: if game_runs {
                None
            } else {
                Some(RunError::NoWindow)
            },
        }
    }

    /// The operation to do next.
    pub fn current(&self) -> (r: Option<&Op>)
        ensures
            match r {
                Some(op) => self.running() && *op == self.ops@[self.at as int],
                None => !self.running(),
            },
    {
        if self.error.is_some() || self.at >= self.ops.len() {
            None
        } else {
            Some(&self.ops[self.at])
        }
    }

    /// Takes the reply to the current operation.
    pub fn advance(&mut self, reply: Reply)
        requires
            old(self).running(),
        ensures
            final(self).ops == old(self).ops,
            ({
                let op = old(self).ops@[old(self).at as int]@;
                match error_of(op, reply) {
                    Some(e) => {
                        &&& error_view(final(self).error) == Some(e)
                        &&& final(self).at == old(self).at
                        &&& final(self).held == old(self).held
                        &&& final(self).focused == old(self).focused
                    },
                    None => {
                        &&& final(self).error is None
                        &&& final(self).at == old(self).at + 1
                        &&& final(self).held@ == held_after(op, old(self).held@)
                        &&& final(self).focused == (old(self).focused || op is Focus)
                    },
                }
            }),
    {
        let count: usize = self.ops.len();
        assert(self.at < count);
        let error = reply_error(&self.ops[self.at], reply);
        if error.is_some() {
            self.error = error;
            return;
        }
        let mut held: Option<Vec<KeyChord>> = None;
        match &self.ops[self.at] {
            Op::Focus => {
                self.focused = true;
            },
            Op::Hold(c) => {
                let mut more = copy_chords(self.held.as_slice());
                more.push(*c);
                held = Some(more);
            },
            Op::Unhold(c) => {
                held = Some(without_chord(self.held.as_slice(), *c));
            },
            _ => {},
        }
        if let Some(h) = held {
            self.held = h;
        }
        self.at = self.at + 1;
    }

    /// Operations that let go of every held key, the last pressed first.
    pub fn release(&self) -> (r: Vec<Op>)
        ensures
            ops_view(r@) == releases(self.held@),
    {
        let mut out: Vec<Op> = Vec::new();
        let mut n: usize = self.held.len();
        assert(ops_view(out@) + releases(self.held@.take(n as int)) =~= releases(self.held@)) by {
            assert(self.held@.take(n as int) == self.held@);
        }
        while n > 0
            invariant
                n <= self.held@.len(),
                ops_view(out@) + releases(self.held@.take(n as int)) == releases(self.held@),
            decreases n,
        {
            let ghost h = self.held@.take(n as int);
            assert(h.drop_last() == self.held@.take(n - 1));
            assert(h.last() == self.held@[n - 1]);
            let ghost before = ops_view(out@);
            push_chord(&mut out, self.held[n - 1], false);
            assert(before + (chord_ops(h.last(), false) + releases(h.drop_last())) =~= before
                + chord_ops(h.last(), false) + releases(h.drop_last()));
            n = n - 1;
        }
        assert(ops_view(out@) + releases(self.held@.take(0)) =~= ops_view(out@));
        out
    }

    /// How a macro that came to its end went; `in_front` tells whether the game is in front.
    pub fn outcome(&self, in_front: bool) -> (r: Result<RunOk, RunError>)
        ensures
            match r {
                Ok(ok) => self.error is None && ok.focused == (self.focused || in_front),
                Err(e) => error_view(self.error) == Some(e@),
            },
    {
        match &self.error {
            Some(e) => Err(e.copy()),
            None => Ok(RunOk { focused: self.focused || in_front }),
        }
    }
}

fn copy_chords(v: &[KeyChord]) -> (r: Vec<KeyChord>)
    ensures
        r@ == v@,
{
    let mut out: Vec<KeyChord> = Vec::new();
    let mut i: usize = 0;
    while i < v.len()
        invariant
            i <= v@.len(),
            out@ == v@.take(i as int),
        decreases v@.len() - i,
    {
        out.push(v[i]);
        assert(v@.take(i + 1) =~= v@.take(i as int).push(v@[i as int]));
        i = i + 1;
    }
    assert(v@.take(i as int) == v@);
    out
}

/// Operations that let go of keys, the last pressed first.
pub open spec fn releases(held: Seq<KeyChord>) -> Seq<OpView>
    decreases held.len(),
{
    if held.len() == 0 {
        seq![]
    } else {
        chord_ops(held.last(), false) + releases(held.drop_last())
    }
}

// ---------------------------------------------------------------------------
// Windows
// ---------------------------------------------------------------------------

/// What is known of a top-level window.
#[derive(Debug, Clone, Copy, PartialEq, Eq, Structural)]
pub struct WindowInfo {
    pub visible: bool,
    pub minimized: bool,
    pub tool: bool,
    pub pid: u32,
    pub left: i32,
    pub top: i32,
    pub right: i32,
    pub bottom: i32,
}

/// Area of a window.
pub open spec fn area(w: WindowInfo) -> int {
    (w.right - w.left) * (w.bottom - w.top)
}

/// Whether a window can be focused for the game.
pub open spec fn is_candidate(w: WindowInfo, pids: Seq<u32>) -> bool {
    w.visible && !w.minimized && !w.tool && pids.contains(w.pid) && area(w) > 0
}

fn window_area(w: &WindowInfo) -> (r: i128)
    ensures
        r == area(*w),
{
    let width: i128 = w.right as i128 - w.left as i128;
    let height: i128 = w.bottom as i128 - w.top as i128;
    assert(-0x1_0000_0000_0000_0000_0000 < width * height < 0x1_0000_0000_0000_0000_0000)
        by (nonlinear_arith)
        requires
            -0x1_0000_0000 < width < 0x1_0000_0000,
            -0x1_0000_0000 < height < 0x1_0000_0000,
    ;
    width * height
}

/// The largest visible non-tool window of the game, the first of several.
pub fn pick_window(windows: &[WindowInfo], pids: &[u32]) -> (r: Option<usize>)
    ensures
        match r {
            Some(k) => {
                &&& k < windows@.len()
                &&& is_candidate(windows@[k as int], pids@)
                &&& forall|i: int|
                    0 <= i < windows@.len() && is_candidate(#[trigger] windows@[i], pids@)
                        ==> area(windows@[i]) <= area(windows@[k as int])
                &&& forall|i: int|
                    0 <= i < k && is_candidate(#[trigger] windows@[i], pids@) ==> area(windows@[i])
                        < area(windows@[k as int])
            },
            None => forall|i: int|
                0 <= i < windows@.len() ==> !is_candidate(#[trigger] windows@[i], pids@),
        },
{
    let mut best: Option<usize> = None;
    let mut best_area: i128 = 0;
    let mut i: usize = 0;
    while i < windows.len()
        invariant
            i <= windows@.len(),
            match best {
                Some(k) => {
                    &&& k < i
                    &&& is_candidate(windows@[k as int], pids@)
                    &&& best_area == area(windows@[k as int])
                    &&& forall|j: int|
                        0 <= j < i && is_candidate(#[trigger] windows@[j], pids@) ==> area(
                            windows@[j],
                        ) <= best_area
                    &&& forall|j: int|
                        0 <= j < k && is_candidate(#[trigger] windows@[j], pids@) ==> area(
                            windows@[j],
                        ) < best_area
                },
                None => best_area == 0 && forall|j: int|
                    0 <= j < i ==> !is_candidate(#[trigger] windows@[j], pids@),
            },
        decreases windows@.len() - i,
    {
        let w = &windows[i];
        if w.visible && !w.minimized && !w.tool && has_pid(pids, w.pid) {
            let size: i128 = window_area(w);
            if size > 0 && size > best_area {
                best = Some(i);
                best_area = size;
            }
        }
        i = i + 1;
    }
    best
}

/// What focusing does after a look at the foreground window.
#[derive(Debug, Clone, Copy, PartialEq, Eq, Structural)]
pub enum FocusWait {
    Focused,
    LookAgainIn(u64),
    GiveUp,
}

/// What follows a look for the game's window, `elapsed` ms after it was asked to the front.
pub open spec fn focus_wait(elapsed: u64, in_front: bool) -> FocusWait {
    if elapsed >= FOCUS_POLL_CAP_MS {
        FocusWait::GiveUp
    } else if in_front {
        FocusWait::Focused
    } else {
        FocusWait::LookAgainIn(FOCUS_POLL_MS)
    }
}

/// What focusing does `elapsed_ms` after it began: looks come only before the cap.
pub fn wait_foreground(elapsed_ms: u64, in_front: bool) -> (r: FocusWait)
    ensures
        r == focus_wait(elapsed_ms, in_front),
{
    if elapsed_ms >= FOCUS_POLL_CAP_MS {
        FocusWait::GiveUp
    } else if in_front {
        FocusWait::Focused
    } else {
        FocusWait::LookAgainIn(FOCUS_POLL_MS)
    }
}

/// Whether the foreground window's process is one of the game's.
pub fn foreground_matches(foreground_pid: Option<u32>, pids: &[u32]) -> (r: bool)
    ensures
        r == (foreground_pid matches Some(p) && pids@.contains(p)),
{
    match foreground_pid {
        Some(p) => has_pid(pids, p),
        None => false,
    }
}

// ---------------------------------------------------------------------------
// Laws
// ---------------------------------------------------------------------------

/// Whether an operation sends input.
pub open spec fn sends(op: OpView) -> bool {
    op is SendKeys || op is SendText
}

/// Whether the operation at `i` sends input only behind a look at the foreground window, with
/// nothing but input between the two.
pub open spec fn guarded(ops: Seq<OpView>, i: int) -> bool {
    exists|j: int|
        0 <= j < i && (#[trigger] ops[j]) is NeedForeground && forall|k: int|
            j < k < i ==> sends(#[trigger] ops[k])
}

/// A chord sends input only, or it cannot be sent at all, neither down nor up.
proof fn lemma_chord_sends(c: KeyChord, down: bool)
    ensures
        (forall|i: int| 0 <= i < chord_ops(c, down).len() ==> sends(#[trigger] chord_ops(c, down)[i]))
            || (forall|d: bool| #[trigger]
            chord_ops(c, d) == seq![OpView::Fail(no_vk_message(c.key))]),
{
}

/// Keys reach only the game: in a macro every input comes behind a look that finds the game
/// in front, with nothing but input between.
pub proof fn law_input_is_guarded(steps: Seq<macro_text::StepView>, i: int)
    requires
        0 <= i < program(steps).len(),
        sends(program(steps)[i]),
    ensures
        guarded(program(steps), i),
    decreases steps.len(),
{
    let ops = program(steps);
    let head = program(steps.drop_last());
    let tail = step_ops(steps.last());
    if i < head.len() {
        law_input_is_guarded(steps.drop_last(), i);
        let j = choose|j: int|
            0 <= j < i && (#[trigger] head[j]) is NeedForeground && forall|k: int|
                j < k < i ==> sends(#[trigger] head[k]);
        assert(ops[j] is NeedForeground);
        assert forall|k: int| j < k < i implies sends(#[trigger] ops[k]) by {
            assert(ops[k] == head[k]);
        }
    } else {
        let n = head.len() as int;
        lemma_step_guarded(steps.last(), i - n);
        assert(ops[n] == tail[0]);
        assert forall|k: int| n < k < i implies sends(#[trigger] ops[k]) by {
            assert(ops[k] == tail[k - n]);
        }
    }
}

/// A macro that got to an input has found the game in front just before: since then it did
/// nothing but send input. Here `replies` are the replies to the operations before the input.
pub proof fn law_input_goes_to_the_game_in_front(
    steps: Seq<macro_text::StepView>,
    replies: Seq<Reply>,
)
    requires
        replies.len() < program(steps).len(),
        forall|k: int|
            0 <= k < replies.len() ==> error_of(program(steps)[k], #[trigger] replies[k]) is None,
        sends(program(steps)[replies.len() as int]),
    ensures
        exists|j: int|
            0 <= j < replies.len() && #[trigger] replies[j] == Reply::Foreground(true) && program(
                steps,
            )[j] is NeedForeground && forall|k: int|
                j < k < replies.len() ==> sends(#[trigger] program(steps)[k]),
{
    let ops = program(steps);
    let i = replies.len() as int;
    law_input_is_guarded(steps, i);
    let j = choose|j: int|
        0 <= j < i && (#[trigger] ops[j]) is NeedForeground && forall|k: int|
            j < k < i ==> sends(#[trigger] ops[k]);
    assert(error_of(ops[j], replies[j]) is None);
    assert(replies[j] == Reply::Foreground(true));
}

proof fn lemma_step_guarded(step: macro_text::StepView, i: int)
    requires
        0 <= i < step_ops(step).len(),
        sends(step_ops(step)[i]),
    ensures
        i > 0,
        step_ops(step)[0] is NeedForeground,
        forall|k: int| 0 < k < i ==> sends(#[trigger] step_ops(step)[k]),
{
    let ops = step_ops(step);
    match step {
        macro_text::StepView::Press(c) => {
            lemma_chord_sends(c, true);
            lemma_chord_sends(c, false);
            let a = chord_ops(c, true);
            let b = chord_ops(c, false);
            assert forall|k: int| 0 < k < i implies sends(#[trigger] ops[k]) by {
                if k - 1 < a.len() {
                    assert(ops[k] == a[k - 1]);
                } else {
                    assert(ops[k] == b[k - 1 - a.len()]);
                }
            }
        },
        macro_text::StepView::KeyDown(c) => {
            lemma_chord_sends(c, true);
            let a = chord_ops(c, true);
            assert forall|k: int| 0 < k < i implies sends(#[trigger] ops[k]) by {
                assert(ops[k] == a[k - 1]);
            }
        },
        macro_text::StepView::KeyUp(c) => {
            lemma_chord_sends(c, false);
            let a = chord_ops(c, false);
            assert forall|k: int| 0 < k < i implies sends(#[trigger] ops[k]) by {
                assert(ops[k] == a[k - 1]);
            }
        },
        _ => {},
    }
}

/// A chord goes up the other way round than it went down: each modifier that was pressed is
/// let go once.
pub proof fn law_modifiers_are_released(c: KeyChord)
    ensures
        modifiers_up(c).len() == modifiers_down(c).len(),
        forall|i: int|
            0 <= i < modifiers_down(c).len() ==> (#[trigger] modifiers_down(c)[i]).down && modifiers_up(
                c,
            )[modifiers_down(c).len() - 1 - i] == (KeyEvent {
                down: false,
                ..modifiers_down(c)[i]
            }),
{
}

} // verus!
