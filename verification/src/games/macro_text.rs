//! Share-text grammar for per-game macros.
//!
//! A document is a list of `key: value` lines. Lines before the first `name:`
//! are headers; each `name:` opens a macro with one `action:` and free metadata.
//! `#` starts a comment outside quotes.
use crate::text;
use crate::text_map;
use crate::text_map::TextMap;
use vstd::prelude::*;
use vstd::slice::slice_subrange;
use vstd::string::StringExecFns;

verus! {

pub const MAX_DOCUMENT_BYTES: usize = 16384;

pub const MAX_MACROS_PER_GAME: usize = 24;

pub const MAX_STEPS_PER_MACRO: usize = 48;

pub const MAX_WAIT_MS: u32 = 2000;

pub const MAX_WAIT_SUM_MS: u32 = 8000;

/// Parsed share document (one or more macros).
#[derive(Debug, Clone, PartialEq, Eq)]
pub struct MacroDocument {
    pub headers: TextMap<String>,
    pub macros: Vec<ParsedMacro>,
}

/// One macro of a share document.
#[derive(Debug, Clone, PartialEq, Eq)]
pub struct ParsedMacro {
    pub name: String,
    pub action: String,
    pub meta: TextMap<String>,
    pub steps: Vec<Step>,
}

/// One step inside an `action:` chain.
#[derive(Debug, Clone, PartialEq, Eq)]
pub enum Step {
    Focus,
    Wait(u32),
    Press(KeyChord),
    Type(String),
    KeyDown(KeyChord),
    KeyUp(KeyChord),
}

/// A key with its modifiers.
#[derive(Debug, Clone, Copy, PartialEq, Eq, Structural)]
pub struct KeyChord {
    pub ctrl: bool,
    pub alt: bool,
    pub shift: bool,
    pub win: bool,
    pub key: Key,
}

#[derive(Debug, Clone, Copy, PartialEq, Eq, Structural)]
pub enum Key {
    Enter,
    Esc,
    Tab,
    Space,
    Backspace,
    Delete,
    Up,
    Down,
    Left,
    Right,
    Home,
    End,
    PageUp,
    PageDown,
    F(u8),
    Char(char),
}

/// Why a document was rejected, with the line where that is known.
#[derive(Debug, Clone, PartialEq, Eq)]
pub struct ParseError {
    pub line: Option<usize>,
    pub message: String,
}

// ---------------------------------------------------------------------------
// Models
// ---------------------------------------------------------------------------

/// Model of [`Step`].
pub enum StepView {
    Focus,
    Wait(u32),
    Press(KeyChord),
    Type(Seq<char>),
    KeyDown(KeyChord),
    KeyUp(KeyChord),
}

impl View for Step {
    type V = StepView;

    open spec fn view(&self) -> StepView {
        match *self {
            Step::Focus => StepView::Focus,
            Step::Wait(ms) => StepView::Wait(ms),
            Step::Press(c) => StepView::Press(c),
            Step::Type(s) => StepView::Type(s@),
            Step::KeyDown(c) => StepView::KeyDown(c),
            Step::KeyUp(c) => StepView::KeyUp(c),
        }
    }
}

/// Models of a list of steps.
pub open spec fn steps_view(v: Seq<Step>) -> Seq<StepView> {
    Seq::new(v.len(), |i: int| v[i]@)
}

/// Model of [`ParsedMacro`].
#[verifier::ext_equal]
pub struct MacroView {
    pub name: Seq<char>,
    pub action: Seq<char>,
    pub meta: Map<Seq<char>, Seq<char>>,
    pub steps: Seq<StepView>,
}

impl View for ParsedMacro {
    type V = MacroView;

    open spec fn view(&self) -> MacroView {
        MacroView {
            name: self.name@,
            action: self.action@,
            meta: text_map::texts(self.meta@),
            steps: steps_view(self.steps@),
        }
    }
}

/// Models of a list of macros.
pub open spec fn macros_view(v: Seq<ParsedMacro>) -> Seq<MacroView> {
    Seq::new(v.len(), |i: int| v[i]@)
}

/// Model of [`MacroDocument`].
#[verifier::ext_equal]
pub struct DocumentView {
    pub headers: Map<Seq<char>, Seq<char>>,
    pub macros: Seq<MacroView>,
}

impl View for MacroDocument {
    type V = DocumentView;

    open spec fn view(&self) -> DocumentView {
        DocumentView {
            headers: text_map::texts(self.headers@),
            macros: macros_view(self.macros@),
        }
    }
}

/// Model of [`ParseError`].
#[verifier::ext_equal]
pub struct ErrorView {
    pub line: Option<int>,
    pub message: Seq<char>,
}

impl View for ParseError {
    type V = ErrorView;

    open spec fn view(&self) -> ErrorView {
        ErrorView {
            line: match self.line {
                Some(n) => Some(n as int),
                None => None,
            },
            message: self.message@,
        }
    }
}

impl ParseError {
    /// Message for the reader, led by the line number where there is one.
    pub fn to_string(&self) -> (r: String)
        ensures
            r@ == match self.line {
                Some(n) => "line "@ + text::dec(n as nat) + ": "@ + self.message@,
                None => self.message@,
            },
    {
        match self.line {
            Some(n) => {
                let mut r = text::own("line ");
                text::push_dec(&mut r, n as u64);
                r.append(": ");
                r.append(self.message.as_str());
                r
            },
            None => self.message.clone(),
        }
    }
}

impl MacroDocument {
    /// The `game:` header.
    pub fn game_header(&self) -> (r: Option<&str>)
        ensures
            match r {
                Some(v) => self@.headers.dom().contains("game"@) && v@ == self@.headers["game"@],
                None => !self@.headers.dom().contains("game"@),
            },
    {
        match self.headers.get("game") {
            Some(v) => Some(v.as_str()),
            None => None,
        }
    }
}

// ---------------------------------------------------------------------------
// Steps
// ---------------------------------------------------------------------------

/// What follows `verb` in `step`, when `step` is that verb.
pub open spec fn after_verb(step: Seq<char>, verb: Seq<char>) -> Option<Seq<char>> {
    if step.len() >= verb.len() && text::same_ignoring_case(
        step.take(verb.len() as int),
        verb,
    ) {
        let rest = step.skip(verb.len() as int);
        if rest.len() == 0 {
            Some(rest)
        } else if text::is_space(rest[0]) {
            Some(text::trim_start(rest))
        } else {
            None
        }
    } else {
        None
    }
}

fn strip_verb<'a>(step: &'a [char], verb: &str) -> (r: Option<&'a [char]>)
    ensures
        match r {
            Some(rest) => after_verb(step@, verb@) == Some(rest@),
            None => after_verb(step@, verb@) is None,
        },
{
    let v = text::chars_of(verb);
    if step.len() < v.len() {
        return None;
    }
    assert(step@.subrange(0, v@.len() as int) == step@.take(v@.len() as int));
    if !text::chars_eq_ignore_case(slice_subrange(step, 0, v.len()), v.as_slice()) {
        return None;
    }
    assert(step@.subrange(v@.len() as int, step@.len() as int) == step@.skip(v@.len() as int));
    let rest = slice_subrange(step, v.len(), step.len());
    if rest.len() == 0 {
        return Some(rest);
    }
    if text::char_is_space(rest[0]) {
        return Some(text::chars_trim_start(rest));
    }
    None
}

/// Key named by the lower-case text `lower`.
pub open spec fn named_key(lower: Seq<char>) -> Option<Key> {
    if lower == "enter"@ || lower == "return"@ {
        Some(Key::Enter)
    } else if lower == "esc"@ || lower == "escape"@ {
        Some(Key::Esc)
    } else if lower == "tab"@ {
        Some(Key::Tab)
    } else if lower == "space"@ {
        Some(Key::Space)
    } else if lower == "backspace"@ {
        Some(Key::Backspace)
    } else if lower == "delete"@ || lower == "del"@ {
        Some(Key::Delete)
    } else if lower == "up"@ {
        Some(Key::Up)
    } else if lower == "down"@ {
        Some(Key::Down)
    } else if lower == "left"@ {
        Some(Key::Left)
    } else if lower == "right"@ {
        Some(Key::Right)
    } else if lower == "home"@ {
        Some(Key::Home)
    } else if lower == "end"@ {
        Some(Key::End)
    } else if lower == "pageup"@ || lower == "pgup"@ {
        Some(Key::PageUp)
    } else if lower == "pagedown"@ || lower == "pgdn"@ {
        Some(Key::PageDown)
    } else {
        None
    }
}

/// Whether `c` is an ASCII letter or digit.
pub open spec fn is_alphanumeric(c: char) -> bool {
    ('a' <= c <= 'z') || ('A' <= c <= 'Z') || ('0' <= c <= '9')
}

/// Key written as `s`: a name, `f1`–`f12`, or one ASCII letter or digit.
pub open spec fn key_of(s: Seq<char>) -> Result<Key, Seq<char>> {
    let lower = text::ascii_lower(text::trim(s));
    let unknown = "unknown key `"@ + s + "`"@;
    if named_key(lower) is Some {
        Ok(named_key(lower)->0)
    } else if lower.len() > 0 && lower[0] == 'f' && lower.len() <= 3 {
        match text::parse_unsigned(lower.skip(1), 255) {
            Some(n) => if 1 <= n <= 12 {
                Ok(Key::F(n as u8))
            } else {
                Err(unknown)
            },
            None => Err(unknown),
        }
    } else if lower.len() == 1 && is_alphanumeric(lower[0]) {
        Ok(Key::Char(text::lower(lower[0])))
    } else {
        Err(unknown)
    }
}

fn find_named_key(lower: &[char]) -> (r: Option<Key>)
    ensures
        r == named_key(lower@),
{
    if text::chars_are(lower, "enter") || text::chars_are(lower, "return") {
        Some(Key::Enter)
    } else if text::chars_are(lower, "esc") || text::chars_are(lower, "escape") {
        Some(Key::Esc)
    } else if text::chars_are(lower, "tab") {
        Some(Key::Tab)
    } else if text::chars_are(lower, "space") {
        Some(Key::Space)
    } else if text::chars_are(lower, "backspace") {
        Some(Key::Backspace)
    } else if text::chars_are(lower, "delete") || text::chars_are(lower, "del") {
        Some(Key::Delete)
    } else if text::chars_are(lower, "up") {
        Some(Key::Up)
    } else if text::chars_are(lower, "down") {
        Some(Key::Down)
    } else if text::chars_are(lower, "left") {
        Some(Key::Left)
    } else if text::chars_are(lower, "right") {
        Some(Key::Right)
    } else if text::chars_are(lower, "home") {
        Some(Key::Home)
    } else if text::chars_are(lower, "end") {
        Some(Key::End)
    } else if text::chars_are(lower, "pageup") || text::chars_are(lower, "pgup") {
        Some(Key::PageUp)
    } else if text::chars_are(lower, "pagedown") || text::chars_are(lower, "pgdn") {
        Some(Key::PageDown)
    } else {
        None
    }
}

fn quoted_message(head: &str, body: &[char]) -> (r: String)
    ensures
        r@ == head@ + body@ + "`"@,
{
    let b = text::to_text(body);
    text::cat3(head, b.as_str(), "`")
}

fn parse_key(s: &[char]) -> (r: Result<Key, String>)
    ensures
        match r {
            Ok(k) => key_of(s@) == Ok::<Key, Seq<char>>(k),
            Err(m) => key_of(s@) == Err::<Key, Seq<char>>(m@),
        },
{
    let lower = text::chars_lower(text::chars_trim(s));
    if let Some(k) = find_named_key(lower.as_slice()) {
        return Ok(k);
    }
    if lower.len() > 0 && lower[0] == 'f' && lower.len() <= 3 {
        assert(lower@.subrange(1, lower@.len() as int) == lower@.skip(1));
        let digits = slice_subrange(lower.as_slice(), 1, lower.len());
        if let Some(n) = text::chars_parse_unsigned(digits, 255) {
            if 1 <= n && n <= 12 {
                return Ok(Key::F(n as u8));
            }
        }
        return Err(quoted_message("unknown key `", s));
    }
    if lower.len() == 1 {
        let ch = lower[0];
        if ('a' <= ch && ch <= 'z') || ('A' <= ch && ch <= 'Z') || ('0' <= ch && ch <= '9') {
            return Ok(Key::Char(text::char_lower(ch)));
        }
    }
    Err(quoted_message("unknown key `", s))
}

/// Whether `s` begins with `p` up to ASCII case.
pub open spec fn begins_ignoring_case(s: Seq<char>, p: Seq<char>) -> bool {
    text::begins(text::ascii_lower(s), p)
}

/// Chord written as `s`, added to the modifiers given.
pub open spec fn chord_of(
    s: Seq<char>,
    ctrl: bool,
    alt: bool,
    shift: bool,
    win: bool,
) -> Result<KeyChord, Seq<char>>
    decreases s.len(),
{
    if begins_ignoring_case(s, seq!['c', 't', 'r', 'l', '+']) {
        chord_of(s.skip(5), true, alt, shift, win)
    } else if begins_ignoring_case(s, seq!['a', 'l', 't', '+']) {
        chord_of(s.skip(4), ctrl, true, shift, win)
    } else if begins_ignoring_case(s, seq!['s', 'h', 'i', 'f', 't', '+']) {
        chord_of(s.skip(6), ctrl, alt, true, win)
    } else if begins_ignoring_case(s, seq!['w', 'i', 'n', '+']) {
        chord_of(s.skip(4), ctrl, alt, shift, true)
    } else {
        match key_of(s) {
            Ok(key) => Ok(KeyChord { ctrl, alt, shift, win, key }),
            Err(m) => Err(m),
        }
    }
}

/// Chord of a step; an empty one names no key.
pub open spec fn step_chord(s: Seq<char>) -> Result<KeyChord, Seq<char>> {
    if s.len() == 0 {
        Err("missing key"@)
    } else {
        chord_of(s, false, false, false, false)
    }
}

fn has_modifier(s: &[char], name: &str) -> (r: bool)
    ensures
        r == begins_ignoring_case(s@, name@),
{
    let lower = text::chars_lower(s);
    let n = text::chars_of(name);
    text::chars_begin(lower.as_slice(), n.as_slice())
}

fn parse_chord(s: &[char]) -> (r: Result<KeyChord, String>)
    ensures
        match r {
            Ok(k) => step_chord(s@) == Ok::<KeyChord, Seq<char>>(k),
            Err(m) => step_chord(s@) == Err::<KeyChord, Seq<char>>(m@),
        },
{
    if s.len() == 0 {
        return Err(text::own("missing key"));
    }
    let mut ctrl = false;
    let mut alt = false;
    let mut shift = false;
    let mut win = false;
    let mut at: usize = 0;
    proof {
        reveal_strlit("ctrl+");
        reveal_strlit("alt+");
        reveal_strlit("shift+");
        reveal_strlit("win+");
        assert("ctrl+"@ == seq!['c', 't', 'r', 'l', '+']);
        assert("alt+"@ == seq!['a', 'l', 't', '+']);
        assert("shift+"@ == seq!['s', 'h', 'i', 'f', 't', '+']);
        assert("win+"@ == seq!['w', 'i', 'n', '+']);
        assert(s@.skip(0) == s@);
    }
    loop
        invariant
            at <= s@.len(),
            "ctrl+"@ == seq!['c', 't', 'r', 'l', '+'],
            "alt+"@ == seq!['a', 'l', 't', '+'],
            "shift+"@ == seq!['s', 'h', 'i', 'f', 't', '+'],
            "win+"@ == seq!['w', 'i', 'n', '+'],
            s@.len() > 0,
            step_chord(s@) == chord_of(s@.skip(at as int), ctrl, alt, shift, win),
        decreases s@.len() - at,
    {
        let rest = slice_subrange(s, at, s.len());
        assert(rest@ == s@.skip(at as int));
        if has_modifier(rest, "ctrl+") {
            ctrl = true;
            assert(rest@.skip(5) == s@.skip(at + 5));
            at = at + 5;
        } else if has_modifier(rest, "alt+") {
            alt = true;
            assert(rest@.skip(4) == s@.skip(at + 4));
            at = at + 4;
        } else if has_modifier(rest, "shift+") {
            shift = true;
            assert(rest@.skip(6) == s@.skip(at + 6));
            at = at + 6;
        } else if has_modifier(rest, "win+") {
            win = true;
            assert(rest@.skip(4) == s@.skip(at + 4));
            at = at + 4;
        } else {
            return match parse_key(rest) {
                Ok(key) => Ok(KeyChord { ctrl, alt, shift, win, key }),
                Err(m) => Err(m),
            };
        }
    }
}

/// Text with `c` put in front, where there is text.
pub open spec fn lead(
    head: Seq<char>,
    rest: Result<Seq<char>, Seq<char>>,
) -> Result<Seq<char>, Seq<char>> {
    match rest {
        Ok(t) => Ok(head + t),
        Err(m) => Err(m),
    }
}

/// Contents of a quoted string, read from behind its opening quote.
pub open spec fn unquote(s: Seq<char>) -> Result<Seq<char>, Seq<char>>
    decreases s.len(),
{
    if s.len() == 0 {
        Err("unclosed type string"@)
    } else if s[0] == '\\' {
        if s.len() == 1 {
            Err("type string ends with backslash"@)
        } else if s[1] == '"' || s[1] == '\\' {
            lead(seq![s[1]], unquote(s.skip(2)))
        } else {
            lead(seq!['\\', s[1]], unquote(s.skip(2)))
        }
    } else if s[0] == '"' {
        if s.len() > 1 {
            Err("unexpected text after type string"@)
        } else {
            Ok(seq![])
        }
    } else {
        lead(seq![s[0]], unquote(s.skip(1)))
    }
}

/// Text of a `type` step.
pub open spec fn quoted_text(s: Seq<char>) -> Result<Seq<char>, Seq<char>> {
    let t = text::trim(s);
    if t.len() == 0 || t[0] != '"' {
        Err("type expects a quoted string, got `"@ + t + "`"@)
    } else {
        unquote(t.skip(1))
    }
}

fn parse_quoted(s: &[char]) -> (r: Result<String, String>)
    ensures
        match r {
            Ok(t) => quoted_text(s@) == Ok::<Seq<char>, Seq<char>>(t@),
            Err(m) => quoted_text(s@) == Err::<Seq<char>, Seq<char>>(m@),
        },
{
    let t = text::chars_trim(s);
    if t.len() == 0 || t[0] != '"' {
        return Err(quoted_message("type expects a quoted string, got `", t));
    }
    let mut out: String = String::new();
    let mut i: usize = 1;
    assert(lead(out@, unquote(t@.skip(1))) == unquote(t@.skip(1))) by {
        if let Ok(x) = unquote(t@.skip(1)) {
            assert(Seq::<char>::empty() + x == x);
        }
    }
    while i < t.len()
        invariant
            1 <= i <= t@.len(),
            t@ == text::trim(s@),
            t@[0] == '"',
            quoted_text(s@) == lead(out@, unquote(t@.skip(i as int))),
        decreases t@.len() - i,
    {
        let ghost rest = t@.skip(i as int);
        let ghost before = out@;
        let ch = t[i];
        assert(rest[0] == ch);
        if ch == '\\' {
            if i + 1 >= t.len() {
                return Err(text::own("type string ends with backslash"));
            }
            let next = t[i + 1];
            assert(rest[1] == next);
            assert(rest.skip(2) == t@.skip(i + 2));
            if next == '"' || next == '\\' {
                out.push(next);
                proof {
                    if let Ok(x) = unquote(rest.skip(2)) {
                        assert(before + (seq![next] + x) == before.push(next) + x);
                    }
                }
            } else {
                out.push('\\');
                out.push(next);
                proof {
                    if let Ok(x) = unquote(rest.skip(2)) {
                        assert(before + (seq!['\\', next] + x) == before.push('\\').push(next) + x);
                    }
                }
            }
            i = i + 2;
        } else if ch == '"' {
            if i + 1 < t.len() {
                return Err(text::own("unexpected text after type string"));
            }
            assert(before + Seq::<char>::empty() == before);
            return Ok(out);
        } else {
            out.push(ch);
            assert(rest.skip(1) == t@.skip(i + 1));
            proof {
                if let Ok(x) = unquote(rest.skip(1)) {
                    assert(before + (seq![ch] + x) == before.push(ch) + x);
                }
            }
            i = i + 1;
        }
    }
    Err(text::own("unclosed type string"))
}

/// Step written as `piece`.
pub open spec fn step_of(piece: Seq<char>) -> Result<StepView, Seq<char>> {
    let step = text::trim(piece);
    if text::same_ignoring_case(step, "focus"@) {
        Ok(StepView::Focus)
    } else if let Some(rest) = after_verb(step, "wait"@) {
        match text::parse_unsigned(text::trim(rest), u32::MAX as nat) {
            Some(ms) => if ms > MAX_WAIT_MS {
                Err("wait "@ + text::dec(ms) + " exceeds "@ + text::dec(MAX_WAIT_MS as nat) + "ms"@)
            } else {
                Ok(StepView::Wait(ms as u32))
            },
            None => Err("invalid wait ms `"@ + rest + "`"@),
        }
    } else if let Some(rest) = after_verb(step, "press"@) {
        match step_chord(text::trim(rest)) {
            Ok(c) => Ok(StepView::Press(c)),
            Err(m) => Err(m),
        }
    } else if let Some(rest) = after_verb(step, "keydown"@) {
        match step_chord(text::trim(rest)) {
            Ok(c) => Ok(StepView::KeyDown(c)),
            Err(m) => Err(m),
        }
    } else if let Some(rest) = after_verb(step, "keyup"@) {
        match step_chord(text::trim(rest)) {
            Ok(c) => Ok(StepView::KeyUp(c)),
            Err(m) => Err(m),
        }
    } else if let Some(rest) = after_verb(step, "type"@) {
        match quoted_text(text::trim(rest)) {
            Ok(t) => Ok(StepView::Type(t)),
            Err(m) => Err(m),
        }
    } else {
        Err("unknown step `"@ + step + "`"@)
    }
}

fn parse_step(piece: &[char]) -> (r: Result<Step, String>)
    ensures
        match r {
            Ok(t) => step_of(piece@) == Ok::<StepView, Seq<char>>(t@),
            Err(m) => step_of(piece@) == Err::<StepView, Seq<char>>(m@),
        },
{
    let step = text::chars_trim(piece);
    let focus = text::chars_of("focus");
    if text::chars_eq_ignore_case(step, focus.as_slice()) {
        return Ok(Step::Focus);
    }
    if let Some(rest) = strip_verb(step, "wait") {
        return match text::chars_parse_unsigned(text::chars_trim(rest), u32::MAX) {
            Some(ms) => {
                if ms > MAX_WAIT_MS {
                    let mut m = text::own("wait ");
                    text::push_dec(&mut m, ms as u64);
                    m.append(" exceeds ");
                    text::push_dec(&mut m, MAX_WAIT_MS as u64);
                    m.append("ms");
                    Err(m)
                } else {
                    Ok(Step::Wait(ms))
                }
            },
            None => Err(quoted_message("invalid wait ms `", rest)),
        };
    }
    if let Some(rest) = strip_verb(step, "press") {
        return match parse_chord(text::chars_trim(rest)) {
            Ok(c) => Ok(Step::Press(c)),
            Err(m) => Err(m),
        };
    }
    if let Some(rest) = strip_verb(step, "keydown") {
        return match parse_chord(text::chars_trim(rest)) {
            Ok(c) => Ok(Step::KeyDown(c)),
            Err(m) => Err(m),
        };
    }
    if let Some(rest) = strip_verb(step, "keyup") {
        return match parse_chord(text::chars_trim(rest)) {
            Ok(c) => Ok(Step::KeyUp(c)),
            Err(m) => Err(m),
        };
    }
    if let Some(rest) = strip_verb(step, "type") {
        return match parse_quoted(text::chars_trim(rest)) {
            Ok(t) => Ok(Step::Type(t)),
            Err(m) => Err(m),
        };
    }
    Err(quoted_message("unknown step `", step))
}

// ---------------------------------------------------------------------------
// Action chains
// ---------------------------------------------------------------------------

/// Distance to the next ` > ` outside quotes, or the length when there is none.
pub open spec fn next_separator(s: Seq<char>, quoted: bool, escaped: bool) -> int
    decreases s.len(),
{
    if s.len() == 0 {
        0
    } else if escaped {
        1 + next_separator(s.skip(1), quoted, false)
    } else if quoted {
        1 + next_separator(s.skip(1), s[0] != '"', s[0] == '\\')
    } else if s[0] == '"' {
        1 + next_separator(s.skip(1), true, false)
    } else if s.len() > 2 && s[0] == ' ' && s[1] == '>' && s[2] == ' ' {
        0
    } else {
        1 + next_separator(s.skip(1), false, false)
    }
}

/// Whether a quote is still open at the end of `s`.
pub open spec fn quote_open(s: Seq<char>, quoted: bool, escaped: bool) -> bool
    decreases s.len(),
{
    if s.len() == 0 {
        quoted
    } else if escaped {
        quote_open(s.skip(1), quoted, false)
    } else if quoted {
        quote_open(s.skip(1), s[0] != '"', s[0] == '\\')
    } else {
        quote_open(s.skip(1), s[0] == '"', false)
    }
}

/// A separator lies whole within the text.
pub proof fn lemma_next_separator(s: Seq<char>, quoted: bool, escaped: bool)
    ensures
        0 <= next_separator(s, quoted, escaped) <= s.len(),
        next_separator(s, quoted, escaped) < s.len() ==> next_separator(s, quoted, escaped) + 3
            <= s.len(),
    decreases s.len(),
{
    if s.len() > 0 {
        if escaped {
            lemma_next_separator(s.skip(1), quoted, false);
        } else if quoted {
            lemma_next_separator(s.skip(1), s[0] != '"', s[0] == '\\');
        } else if s[0] == '"' {
            lemma_next_separator(s.skip(1), true, false);
        } else {
            lemma_next_separator(s.skip(1), false, false);
        }
    }
}

/// Pieces put in front of what follows them.
pub open spec fn glue(
    head: Seq<Seq<char>>,
    rest: Result<Seq<Seq<char>>, Seq<char>>,
) -> Result<Seq<Seq<char>>, Seq<char>> {
    match rest {
        Ok(t) => Ok(head + t),
        Err(m) => Err(m),
    }
}

/// Pieces of an action chain, trimmed; `first` marks the start of the chain.
pub open spec fn chain(s: Seq<char>, first: bool) -> Result<Seq<Seq<char>>, Seq<char>>
    decreases s.len(),
{
    let n = next_separator(s, false, false);
    if 0 <= n < s.len() {
        let piece = text::trim(s.take(n));
        if piece.len() == 0 {
            Err("empty step in action chain"@)
        } else {
            proof {
                lemma_next_separator(s, false, false);
            }
            glue(seq![piece], chain(s.skip(n + 3), false))
        }
    } else if quote_open(s, false, false) {
        Err("unclosed quote in action"@)
    } else {
        let last = text::trim(s);
        if last.len() > 0 {
            Ok(seq![last])
        } else if first {
            Err("empty action"@)
        } else {
            Err("trailing separator in action"@)
        }
    }
}

/// Distance to the next separator of `s`, with whether a quote stays open when
/// there is none.
fn scan_piece(s: &[char]) -> (r: (usize, bool))
    ensures
        r.0 == next_separator(s@, false, false),
        r.0 <= s@.len(),
        r.0 < s@.len() ==> r.0 + 3 <= s@.len(),
        r.0 == s@.len() ==> r.1 == quote_open(s@, false, false),
{
    let mut i: usize = 0;
    let mut quoted = false;
    let mut escaped = false;
    proof {
        assert(s@.skip(0) == s@);
        lemma_next_separator(s@, false, false);
    }
    while i < s.len()
        invariant
            i <= s@.len(),
            next_separator(s@, false, false) <= s@.len(),
            next_separator(s@, false, false) < s@.len() ==> next_separator(s@, false, false) + 3
                <= s@.len(),
            next_separator(s@, false, false) == i + next_separator(
                s@.skip(i as int),
                quoted,
                escaped,
            ),
            quote_open(s@, false, false) == quote_open(s@.skip(i as int), quoted, escaped),
        decreases s@.len() - i,
    {
        let ghost rest = s@.skip(i as int);
        let b = s[i];
        assert(rest[0] == b);
        assert(rest.skip(1) == s@.skip(i + 1));
        if escaped {
            escaped = false;
        } else if quoted {
            if b == '\\' {
                escaped = true;
            } else if b == '"' {
                quoted = false;
            }
        } else if b == '"' {
            quoted = true;
        } else if b == ' ' && s.len() - i > 2 && s[i + 1] == '>' && s[i + 2] == ' ' {
            assert(rest[1] == '>' && rest[2] == ' ');
            return (i, false);
        } else {
            assert(rest.len() > 2 ==> rest[1] == s@[i + 1] && rest[2] == s@[i + 2]);
        }
        i = i + 1;
    }
    (i, quoted)
}

/// Texts of a list of character vectors.
pub open spec fn pieces_view(v: Seq<Vec<char>>) -> Seq<Seq<char>> {
    Seq::new(v.len(), |i: int| v[i]@)
}

fn split_action_chain(action: &[char]) -> (r: Result<Vec<Vec<char>>, String>)
    ensures
        match r {
            Ok(v) => chain(action@, true) == Ok::<Seq<Seq<char>>, Seq<char>>(pieces_view(v@)),
            Err(m) => chain(action@, true) == Err::<Seq<Seq<char>>, Seq<char>>(m@),
        },
{
    let mut parts: Vec<Vec<char>> = Vec::new();
    let mut start: usize = 0;
    assert(action@.skip(0) == action@);
    assert(glue(pieces_view(parts@), chain(action@, true)) == chain(action@, true)) by {
        if let Ok(t) = chain(action@, true) {
            assert(pieces_view(parts@) + t == t);
        }
    }
    loop
        invariant
            start <= action@.len(),
            chain(action@, true) == glue(
                pieces_view(parts@),
                chain(action@.skip(start as int), parts@.len() == 0),
            ),
        decreases action@.len() - start,
    {
        let rest = slice_subrange(action, start, action.len());
        assert(rest@ == action@.skip(start as int));
        let (n, open) = scan_piece(rest);
        let ghost before = pieces_view(parts@);
        if n < rest.len() {
            assert(rest@.subrange(0, n as int) == rest@.take(n as int));
            let piece = text::chars_trim(slice_subrange(rest, 0, n));
            if piece.len() == 0 {
                return Err(text::own("empty step in action chain"));
            }
            parts.push(text::copy_chars(piece));
            proof {
                assert(rest@.skip(n + 3) == action@.skip(start + n + 3));
                assert(pieces_view(parts@) == before.push(piece@));
                if let Ok(t) = chain(rest@.skip(n + 3), false) {
                    assert(before + (seq![piece@] + t) == before.push(piece@) + t);
                }
            }
            start = start + n + 3;
        } else {
            if open {
                return Err(text::own("unclosed quote in action"));
            }
            let last = text::chars_trim(rest);
            if last.len() == 0 {
                if parts.len() == 0 {
                    return Err(text::own("empty action"));
                }
                return Err(text::own("trailing separator in action"));
            }
            parts.push(text::copy_chars(last));
            assert(pieces_view(parts@) == before + seq![last@]);
            return Ok(parts);
        }
    }
}

/// Steps of the pieces, or the first error among them.
pub open spec fn steps_of(parts: Seq<Seq<char>>) -> Result<Seq<StepView>, Seq<char>>
    decreases parts.len(),
{
    if parts.len() == 0 {
        Ok(seq![])
    } else {
        match steps_of(parts.drop_last()) {
            Err(m) => Err(m),
            Ok(done) => match step_of(parts.last()) {
                Err(m) => Err(m),
                Ok(step) => Ok(done.push(step)),
            },
        }
    }
}

proof fn lemma_steps_error(parts: Seq<Seq<char>>, k: int)
    requires
        0 <= k <= parts.len(),
        steps_of(parts.take(k)) is Err,
    ensures
        steps_of(parts) == steps_of(parts.take(k)),
    decreases parts.len() - k,
{
    if k < parts.len() {
        assert(parts.take(k + 1).drop_last() == parts.take(k));
        lemma_steps_error(parts, k + 1);
    } else {
        assert(parts.take(k) == parts);
    }
}

/// Steps of an action, or why it is rejected.
pub open spec fn action_steps(action: Seq<char>) -> Result<Seq<StepView>, Seq<char>> {
    match chain(action, true) {
        Err(m) => Err(m),
        Ok(parts) => steps_of(parts),
    }
}

fn parse_action_chars(action: &[char]) -> (r: Result<Vec<Step>, String>)
    ensures
        match r {
            Ok(v) => action_steps(action@) == Ok::<Seq<StepView>, Seq<char>>(steps_view(v@)),
            Err(m) => action_steps(action@) == Err::<Seq<StepView>, Seq<char>>(m@),
        },
{
    let parts = match split_action_chain(action) {
        Ok(p) => p,
        Err(m) => return Err(m),
    };
    let ghost pv = pieces_view(parts@);
    let mut steps: Vec<Step> = Vec::new();
    let mut i: usize = 0;
    assert(steps_view(steps@) == Seq::<StepView>::empty());
    assert(steps_of(pv.take(0)) == Ok::<Seq<StepView>, Seq<char>>(steps_view(steps@)));
    while i < parts.len()
        invariant
            i <= parts@.len(),
            pv == pieces_view(parts@),
            action_steps(action@) == steps_of(pv),
            steps_of(pv.take(i as int)) == Ok::<Seq<StepView>, Seq<char>>(steps_view(steps@)),
        decreases parts@.len() - i,
    {
        let ghost before = steps_view(steps@);
        assert(pv.take(i + 1).drop_last() == pv.take(i as int));
        assert(pv.take(i + 1).last() == parts@[i as int]@);
        match parse_step(parts[i].as_slice()) {
            Ok(step) => {
                steps.push(step);
                assert(steps_view(steps@) == before.push(step@));
            },
            Err(m) => {
                proof {
                    lemma_steps_error(pv, i + 1);
                }
                return Err(m);
            },
        }
        i = i + 1;
    }
    assert(pv.take(i as int) == pv);
    Ok(steps)
}

/// Steps of an action chain.
pub fn parse_action(action: &str) -> (r: Result<Vec<Step>, String>)
    ensures
        match r {
            Ok(v) => action_steps(action@) == Ok::<Seq<StepView>, Seq<char>>(steps_view(v@)),
            Err(m) => action_steps(action@) == Err::<Seq<StepView>, Seq<char>>(m@),
        },
{
    let cs = text::chars_of(action);
    parse_action_chars(cs.as_slice())
}

/// Sum of the waits among `steps`.
pub open spec fn wait_sum(steps: Seq<StepView>) -> nat
    decreases steps.len(),
{
    if steps.len() == 0 {
        0
    } else {
        wait_sum(steps.drop_last()) + match steps.last() {
            StepView::Wait(ms) => ms as nat,
            _ => 0,
        }
    }
}

/// No step of an accepted action waits longer than allowed.
pub proof fn lemma_waits_bounded(parts: Seq<Seq<char>>)
    requires
        steps_of(parts) is Ok,
    ensures
        steps_of(parts)->Ok_0.len() == parts.len(),
        forall|i: int|
            0 <= i < parts.len() ==> (#[trigger] steps_of(parts)->Ok_0[i] matches StepView::Wait(ms)
                ==> ms <= MAX_WAIT_MS),
    decreases parts.len(),
{
    if parts.len() > 0 {
        lemma_waits_bounded(parts.drop_last());
    }
}

// ---------------------------------------------------------------------------
// Documents
// ---------------------------------------------------------------------------

/// Position of the `#` that starts a comment, or the length when there is none.
pub open spec fn comment_start(s: Seq<char>, quoted: bool, escaped: bool) -> int
    decreases s.len(),
{
    if s.len() == 0 {
        0
    } else if escaped {
        1 + comment_start(s.skip(1), quoted, false)
    } else if s[0] == '\\' && quoted {
        1 + comment_start(s.skip(1), quoted, true)
    } else if s[0] == '"' {
        1 + comment_start(s.skip(1), !quoted, false)
    } else if s[0] == '#' && !quoted {
        0
    } else {
        1 + comment_start(s.skip(1), quoted, false)
    }
}

proof fn lemma_comment_start(s: Seq<char>, quoted: bool, escaped: bool)
    ensures
        0 <= comment_start(s, quoted, escaped) <= s.len(),
    decreases s.len(),
{
    if s.len() > 0 {
        lemma_comment_start(s.skip(1), quoted, false);
        lemma_comment_start(s.skip(1), quoted, true);
        lemma_comment_start(s.skip(1), !quoted, false);
    }
}

fn strip_comment(line: &[char]) -> (r: &[char])
    ensures
        r@ == line@.take(comment_start(line@, false, false)),
{
    let mut i: usize = 0;
    let mut quoted = false;
    let mut escaped = false;
    assert(line@.skip(0) == line@);
    while i < line.len()
        invariant
            i <= line@.len(),
            comment_start(line@, false, false) == i + comment_start(
                line@.skip(i as int),
                quoted,
                escaped,
            ),
        decreases line@.len() - i,
    {
        let ghost rest = line@.skip(i as int);
        let ch = line[i];
        assert(rest[0] == ch);
        assert(rest.skip(1) == line@.skip(i + 1));
        if escaped {
            escaped = false;
        } else if ch == '\\' && quoted {
            escaped = true;
        } else if ch == '"' {
            quoted = !quoted;
        } else if ch == '#' && !quoted {
            assert(line@.subrange(0, i as int) == line@.take(i as int));
            return slice_subrange(line, 0, i);
        }
        i = i + 1;
    }
    assert(line@.take(i as int) == line@);
    line
}

/// Whether `s` holds white space.
pub open spec fn has_space(s: Seq<char>) -> bool {
    exists|i: int| 0 <= i < s.len() && text::is_space(#[trigger] s[i])
}

/// Key and raw value of a `key: value` line.
pub open spec fn entry(line: Seq<char>) -> Option<(Seq<char>, Seq<char>)> {
    let c = text::find(line, ':');
    let k = text::trim(line.take(c));
    if c == line.len() || k.len() == 0 || has_space(k) {
        None
    } else {
        Some((k, line.skip(c + 1)))
    }
}

fn split_kv(line: &[char]) -> (r: Option<(&[char], &[char])>)
    ensures
        match r {
            Some(kv) => entry(line@) == Some((kv.0@, kv.1@)),
            None => entry(line@) is None,
        },
{
    let c: usize = text::chars_find(line, ':');
    if c == line.len() {
        return None;
    }
    assert(line@.subrange(0, c as int) == line@.take(c as int));
    let k = text::chars_trim(slice_subrange(line, 0, c));
    if k.len() == 0 {
        return None;
    }
    let mut i: usize = 0;
    while i < k.len()
        invariant
            i <= k@.len(),
            c == text::find(line@, ':'),
            k@ == text::trim(line@.take(c as int)),
            forall|j: int| 0 <= j < i ==> !text::is_space(#[trigger] k@[j]),
        decreases k@.len() - i,
    {
        if text::char_is_space(k[i]) {
            assert(has_space(k@));
            return None;
        }
        i = i + 1;
    }
    assert(line@.subrange(c + 1, line@.len() as int) == line@.skip(c + 1));
    Some((k, slice_subrange(line, c + 1, line.len())))
}

/// What has been read of a document.
#[verifier::ext_equal]
pub struct Reading {
    pub headers: Map<Seq<char>, Seq<char>>,
    pub macros: Seq<MacroView>,
    pub name: Option<Seq<char>>,
    pub action: Option<Seq<char>>,
    pub meta: Map<Seq<char>, Seq<char>>,
    pub seen: Seq<Seq<char>>,
}

/// Nothing read yet.
pub open spec fn nothing_read() -> Reading {
    Reading {
        headers: Map::empty(),
        macros: seq![],
        name: None,
        action: None,
        meta: Map::empty(),
        seen: seq![],
    }
}

/// Error at a line.
pub open spec fn error_at(line: int, message: Seq<char>) -> ErrorView {
    ErrorView { line: Some(line), message }
}

/// Error of the document as a whole.
pub open spec fn error_whole(message: Seq<char>) -> ErrorView {
    ErrorView { line: None, message }
}

/// The macro that `name` and `action` make, checked when its section ends at `line`.
pub open spec fn closed_macro(
    name: Seq<char>,
    action: Option<Seq<char>>,
    meta: Map<Seq<char>, Seq<char>>,
    line: int,
) -> Result<MacroView, ErrorView> {
    match action {
        None => Err(error_at(line, "macro `"@ + name + "` is missing action:"@)),
        Some(action) => if text::trim(name).len() == 0 {
            Err(error_at(line, "name must be non-empty"@))
        } else {
            match action_steps(action) {
                Err(m) => Err(error_at(line, m)),
                Ok(steps) => if steps.len() == 0 {
                    Err(error_at(line, "action must contain at least one step"@))
                } else if steps.len() > MAX_STEPS_PER_MACRO {
                    Err(
                        error_at(
                            line,
                            "action exceeds "@ + text::dec(MAX_STEPS_PER_MACRO as nat)
                                + " steps"@,
                        ),
                    )
                } else if wait_sum(steps) > MAX_WAIT_SUM_MS {
                    Err(
                        error_at(
                            line,
                            "wait sum exceeds "@ + text::dec(MAX_WAIT_SUM_MS as nat) + "ms"@,
                        ),
                    )
                } else {
                    Ok(MacroView { name, action, meta, steps })
                },
            }
        },
    }
}

/// The macros read when the open section, if any, ends at `line`.
pub open spec fn close_section(st: Reading, line: int) -> Result<Seq<MacroView>, ErrorView> {
    match st.name {
        None => Ok(st.macros),
        Some(name) => match closed_macro(name, st.action, st.meta, line) {
            Err(e) => Err(e),
            Ok(m) => Ok(st.macros.push(m)),
        },
    }
}

/// Whether `name` is among `seen` up to ASCII case.
pub open spec fn name_taken(seen: Seq<Seq<char>>, name: Seq<char>) -> bool {
    exists|i: int| 0 <= i < seen.len() && text::same_ignoring_case(#[trigger] seen[i], name)
}

/// What is read once the line `raw`, numbered `line`, was taken in.
pub open spec fn read_line(st: Reading, line: int, raw: Seq<char>) -> Result<Reading, ErrorView> {
    let body = text::trim(raw.take(comment_start(raw, false, false)));
    if body.len() == 0 {
        Ok(st)
    } else {
        match entry(body) {
            None => Err(error_at(line, "expected key: value, got `"@ + body + "`"@)),
            Some((k, v)) => read_entry(st, line, text::ascii_lower(k), text::trim(v)),
        }
    }
}

/// What is read once an entry was taken in.
pub open spec fn read_entry(
    st: Reading,
    line: int,
    key: Seq<char>,
    value: Seq<char>,
) -> Result<Reading, ErrorView> {
    if key == "name"@ {
        match close_section(st, line) {
            Err(e) => Err(e),
            Ok(macros) => if value.len() == 0 {
                Err(error_at(line, "name must be non-empty"@))
            } else if name_taken(st.seen, value) {
                Err(error_at(line, "duplicate macro name `"@ + value + "`"@))
            } else {
                Ok(
                    Reading {
                        macros,
                        name: Some(value),
                        action: None,
                        meta: Map::empty(),
                        seen: st.seen.push(value),
                        ..st
                    },
                )
            },
        }
    } else if st.name is None {
        Ok(Reading { headers: st.headers.insert(key, value), ..st })
    } else if key == "action"@ {
        if st.action is Some {
            Err(error_at(line, "macro already has an action:"@))
        } else {
            Ok(Reading { action: Some(value), ..st })
        }
    } else {
        Ok(Reading { meta: st.meta.insert(key, value), ..st })
    }
}

/// What is read of `lines`, or the first error among them.
pub open spec fn read_lines(lines: Seq<Seq<char>>) -> Result<Reading, ErrorView>
    decreases lines.len(),
{
    if lines.len() == 0 {
        Ok(nothing_read())
    } else {
        match read_lines(lines.drop_last()) {
            Err(e) => Err(e),
            Ok(st) => read_line(st, lines.len() as int, lines.last()),
        }
    }
}

proof fn lemma_read_error(lines: Seq<Seq<char>>, k: int)
    requires
        0 <= k <= lines.len(),
        read_lines(lines.take(k)) is Err,
    ensures
        read_lines(lines) == read_lines(lines.take(k)),
    decreases lines.len() - k,
{
    if k < lines.len() {
        assert(lines.take(k + 1).drop_last() == lines.take(k));
        lemma_read_error(lines, k + 1);
    } else {
        assert(lines.take(k) == lines);
    }
}

/// The document that the macros read make.
pub open spec fn finished(
    headers: Map<Seq<char>, Seq<char>>,
    macros: Seq<MacroView>,
) -> Result<DocumentView, ErrorView> {
    if macros.len() == 0 {
        Err(error_whole("document has no macros"@))
    } else if macros.len() > MAX_MACROS_PER_GAME {
        Err(
            error_whole(
                "document exceeds "@ + text::dec(MAX_MACROS_PER_GAME as nat) + " macros"@,
            ),
        )
    } else {
        Ok(DocumentView { headers, macros })
    }
}

/// The document written as `s`, or why it is rejected.
pub open spec fn document(s: Seq<char>) -> Result<DocumentView, ErrorView> {
    if vstd::utf8::encode_utf8(s).len() > MAX_DOCUMENT_BYTES {
        Err(
            error_whole(
                "document exceeds "@ + text::dec(MAX_DOCUMENT_BYTES as nat) + " bytes"@,
            ),
        )
    } else {
        let lines = text::lines(s);
        match read_lines(lines) {
            Err(e) => Err(e),
            Ok(st) => match close_section(
                st,
                if lines.len() == 0 {
                    1
                } else {
                    lines.len() as int
                },
            ) {
                Err(e) => Err(e),
                Ok(macros) => finished(st.headers, macros),
            },
        }
    }
}

struct Reader {
    headers: TextMap<String>,
    macros: Vec<ParsedMacro>,
    name: Option<String>,
    action: Option<String>,
    meta: TextMap<String>,
    seen: Vec<String>,
}

spec fn texts_of(v: Seq<String>) -> Seq<Seq<char>> {
    Seq::new(v.len(), |i: int| v[i]@)
}

spec fn text_of(v: Option<String>) -> Option<Seq<char>> {
    match v {
        Some(s) => Some(s@),
        None => None,
    }
}

impl View for Reader {
    type V = Reading;

    closed spec fn view(&self) -> Reading {
        Reading {
            headers: text_map::texts(self.headers@),
            macros: macros_view(self.macros@),
            name: text_of(self.name),
            action: text_of(self.action),
            meta: text_map::texts(self.meta@),
            seen: texts_of(self.seen@),
        }
    }
}

fn error_at_line(line: usize, message: String) -> (r: ParseError)
    ensures
        r@ == error_at(line as int, message@),
{
    ParseError { line: Some(line), message }
}

fn limit_message(head: &str, limit: usize, tail: &str) -> (r: String)
    ensures
        r@ == head@ + text::dec(limit as nat) + tail@,
{
    let mut m = text::own(head);
    text::push_dec(&mut m, limit as u64);
    m.append(tail);
    m
}

fn sum_waits(steps: &Vec<Step>) -> (r: u64)
    requires
        steps@.len() <= MAX_STEPS_PER_MACRO,
    ensures
        r == wait_sum(steps_view(steps@)),
{
    let ghost sv = steps_view(steps@);
    let mut sum: u64 = 0;
    let mut i: usize = 0;
    while i < steps.len()
        invariant
            i <= steps@.len(),
            steps@.len() <= MAX_STEPS_PER_MACRO,
            sv == steps_view(steps@),
            sum == wait_sum(sv.take(i as int)),
            sum <= i * (u32::MAX as int),
        decreases steps@.len() - i,
    {
        assert(sv.take(i + 1).drop_last() == sv.take(i as int));
        assert(sv.take(i + 1).last() == steps@[i as int]@);
        assert(i * (u32::MAX as int) + u32::MAX == (i + 1) * (u32::MAX as int))
            by (nonlinear_arith);
        assert(i * (u32::MAX as int) <= 48 * (u32::MAX as int)) by (nonlinear_arith)
            requires
                0 <= i <= 48,
        ;
        if let Step::Wait(ms) = &steps[i] {
            sum = sum + *ms as u64;
        }
        i = i + 1;
    }
    assert(sv.take(i as int) == sv);
    sum
}

fn close_macro(name: String, action: Option<String>, meta: TextMap<String>, line: usize) -> (r:
    Result<ParsedMacro, ParseError>)
    ensures
        match r {
            Ok(m) => closed_macro(name@, text_of(action), text_map::texts(meta@), line as int)
                == Ok::<MacroView, ErrorView>(m@),
            Err(e) => closed_macro(name@, text_of(action), text_map::texts(meta@), line as int)
                == Err::<MacroView, ErrorView>(e@),
        },
{
    let action = match action {
        Some(a) => a,
        None => {
            return Err(
                error_at_line(
                    line,
                    text::cat3("macro `", name.as_str(), "` is missing action:"),
                ),
            );
        },
    };
    let cs = text::chars_of(name.as_str());
    if text::chars_trim(cs.as_slice()).len() == 0 {
        return Err(error_at_line(line, text::own("name must be non-empty")));
    }
    let steps = match parse_action(action.as_str()) {
        Ok(s) => s,
        Err(m) => return Err(error_at_line(line, m)),
    };
    if steps.len() == 0 {
        return Err(error_at_line(line, text::own("action must contain at least one step")));
    }
    if steps.len() > MAX_STEPS_PER_MACRO {
        return Err(
            error_at_line(line, limit_message("action exceeds ", MAX_STEPS_PER_MACRO, " steps")),
        );
    }
    if sum_waits(&steps) > MAX_WAIT_SUM_MS as u64 {
        return Err(
            error_at_line(
                line,
                limit_message("wait sum exceeds ", MAX_WAIT_SUM_MS as usize, "ms"),
            ),
        );
    }
    Ok(ParsedMacro { name, action, meta, steps })
}

fn seen_before(seen: &Vec<String>, name: &[char]) -> (r: bool)
    ensures
        r == name_taken(texts_of(seen@), name@),
{
    let ghost tv = texts_of(seen@);
    let mut i: usize = 0;
    while i < seen.len()
        invariant
            i <= seen@.len(),
            tv == texts_of(seen@),
            forall|k: int| 0 <= k < i ==> !text::same_ignoring_case(#[trigger] tv[k], name@),
        decreases seen@.len() - i,
    {
        let cs = text::chars_of(seen[i].as_str());
        if text::chars_eq_ignore_case(cs.as_slice(), name) {
            assert(text::same_ignoring_case(tv[i as int], name@));
            return true;
        }
        i = i + 1;
    }
    false
}

impl Reader {
    /// Ends the open section at `line`.
    fn close(&mut self, line: usize) -> (r: Result<(), ParseError>)
        ensures
            match r {
                Ok(_) => close_section(old(self)@, line as int) == Ok::<Seq<MacroView>, ErrorView>(
                    final(self)@.macros,
                ) && final(self)@.headers == old(self)@.headers && final(self)@.seen
                    == old(self)@.seen,
                Err(e) => close_section(old(self)@, line as int) == Err::<
                    Seq<MacroView>,
                    ErrorView,
                >(e@),
            },
    {
        let mut meta: TextMap<String> = TextMap::new();
        core::mem::swap(&mut meta, &mut self.meta);
        let action = self.action.take();
        match self.name.take() {
            None => Ok(()),
            Some(name) => {
                let ghost before = macros_view(self.macros@);
                match close_macro(name, action, meta, line) {
                    Ok(m) => {
                        self.macros.push(m);
                        assert(macros_view(self.macros@) == before.push(m@));
                        Ok(())
                    },
                    Err(e) => Err(e),
                }
            },
        }
    }

    fn read(&mut self, line: usize, raw: &[char]) -> (r: Result<(), ParseError>)
        ensures
            match r {
                Ok(_) => read_line(old(self)@, line as int, raw@) == Ok::<Reading, ErrorView>(
                    final(self)@,
                ),
                Err(e) => read_line(old(self)@, line as int, raw@) == Err::<Reading, ErrorView>(e@),
            },
    {
        let body = text::chars_trim(strip_comment(raw));
        if body.len() == 0 {
            return Ok(());
        }
        let (k, v) = match split_kv(body) {
            Some(kv) => kv,
            None => {
                return Err(
                    error_at_line(line, quoted_message("expected key: value, got `", body)),
                );
            },
        };
        let key = text::chars_lower(k);
        let value = text::chars_trim(v);
        if text::chars_are(key.as_slice(), "name") {
            match self.close(line) {
                Ok(_) => {},
                Err(e) => return Err(e),
            }
            if value.len() == 0 {
                return Err(error_at_line(line, text::own("name must be non-empty")));
            }
            if seen_before(&self.seen, value) {
                return Err(
                    error_at_line(line, quoted_message("duplicate macro name `", value)),
                );
            }
            let ghost before = texts_of(self.seen@);
            self.seen.push(text::to_text(value));
            assert(texts_of(self.seen@) == before.push(value@));
            self.name = Some(text::to_text(value));
            self.action = None;
            self.meta = TextMap::new();
            proof {
                text_map::lemma_texts_empty();
            }
            return Ok(());
        }
        if self.name.is_none() {
            let t = text::to_text(value);
            proof {
                text_map::lemma_texts_insert(self.headers@, key@, t);
            }
            self.headers.insert(text::to_text(key.as_slice()), t);
            return Ok(());
        }
        if text::chars_are(key.as_slice(), "action") {
            if self.action.is_some() {
                return Err(error_at_line(line, text::own("macro already has an action:")));
            }
            self.action = Some(text::to_text(value));
            return Ok(());
        }
        let t = text::to_text(value);
        proof {
            text_map::lemma_texts_insert(self.meta@, key@, t);
        }
        self.meta.insert(text::to_text(key.as_slice()), t);
        Ok(())
    }
}

/// Parse a share document. Rejects oversized / invalid input with a line number when possible.
pub fn parse(text: &str) -> (r: Result<MacroDocument, ParseError>)
    ensures
        match r {
            Ok(d) => document(text@) == Ok::<DocumentView, ErrorView>(d@),
            Err(e) => document(text@) == Err::<DocumentView, ErrorView>(e@),
        },
{
    if text::byte_len(text) > MAX_DOCUMENT_BYTES {
        return Err(
            ParseError {
                line: None,
                message: limit_message("document exceeds ", MAX_DOCUMENT_BYTES, " bytes"),
            },
        );
    }
    let lines = text::split_lines(text);
    let ghost lv = text::lines(text@);
    let mut st = Reader {
        headers: TextMap::new(),
        macros: Vec::new(),
        name: None,
        action: None,
        meta: TextMap::new(),
        seen: Vec::new(),
    };
    proof {
        text_map::lemma_texts_empty();
        assert(st@ =~= nothing_read());
    }
    let mut i: usize = 0;
    while i < lines.len()
        invariant
            i <= lines@.len(),
            lines@.len() == lv.len(),
            lv == text::lines(text@),
            forall|k: int| 0 <= k < lv.len() ==> (#[trigger] lines@[k])@ == lv[k],
            vstd::utf8::encode_utf8(text@).len() <= MAX_DOCUMENT_BYTES,
            read_lines(lv.take(i as int)) == Ok::<Reading, ErrorView>(st@),
        decreases lines@.len() - i,
    {
        assert(lv.take(i + 1).drop_last() == lv.take(i as int));
        assert(lv.take(i + 1).last() == lines@[i as int]@);
        match st.read(i + 1, lines[i].as_slice()) {
            Ok(_) => {},
            Err(e) => {
                proof {
                    lemma_read_error(lv, i + 1);
                }
                return Err(e);
            },
        }
        i = i + 1;
    }
    assert(lv.take(i as int) == lv);
    let last: usize = if lines.len() == 0 {
        1
    } else {
        lines.len()
    };
    match st.close(last) {
        Ok(_) => {},
        Err(e) => return Err(e),
    }
    if st.macros.len() == 0 {
        return Err(ParseError { line: None, message: text::own("document has no macros") });
    }
    if st.macros.len() > MAX_MACROS_PER_GAME {
        return Err(
            ParseError {
                line: None,
                message: limit_message("document exceeds ", MAX_MACROS_PER_GAME, " macros"),
            },
        );
    }
    Ok(MacroDocument { headers: st.headers, macros: st.macros })
}

// ---------------------------------------------------------------------------
// Export
// ---------------------------------------------------------------------------

/// An entry as it is written on a line.
pub open spec fn entry_line(e: (Seq<char>, Seq<char>)) -> Seq<char> {
    e.0 + seq![':', ' '] + e.1
}

/// Entries one per line, each line ended by a line feed.
pub open spec fn entry_text(es: Seq<(Seq<char>, Seq<char>)>) -> Seq<char>
    decreases es.len(),
{
    if es.len() == 0 {
        seq![]
    } else {
        entry_text(es.drop_last()) + entry_line(es.last()) + seq!['\n']
    }
}

/// Entries of `m` under `keys`, without those under `skipped`.
pub open spec fn listed(
    m: Map<Seq<char>, Seq<char>>,
    keys: Seq<Seq<char>>,
    skipped: Set<Seq<char>>,
) -> Seq<(Seq<char>, Seq<char>)>
    decreases keys.len(),
{
    if keys.len() == 0 {
        seq![]
    } else if skipped.contains(keys.last()) {
        listed(m, keys.drop_last(), skipped)
    } else {
        listed(m, keys.drop_last(), skipped).push((keys.last(), m[keys.last()]))
    }
}

/// Header entries: `game` first, the others in ascending order.
pub open spec fn header_entries(m: Map<Seq<char>, Seq<char>>) -> Seq<(Seq<char>, Seq<char>)> {
    let others = listed(m, text_map::in_order(m.dom()), set!["game"@]);
    if m.dom().contains("game"@) {
        seq![("game"@, m["game"@])] + others
    } else {
        others
    }
}

/// Entries of one macro: its name, its metadata in ascending order, its action.
pub open spec fn macro_entries(
    name: Seq<char>,
    action: Seq<char>,
    meta: Map<Seq<char>, Seq<char>>,
) -> Seq<(Seq<char>, Seq<char>)> {
    seq![("name"@, name)] + listed(meta, text_map::in_order(meta.dom()), set!["action"@, "name"@])
        + seq![("action"@, action)]
}

/// What a share text holds of a macro.
#[verifier::ext_equal]
pub struct Share {
    pub name: Seq<char>,
    pub action: Seq<char>,
    pub meta: Map<Seq<char>, Seq<char>>,
}

/// Entries of a whole document.
pub open spec fn document_entries(
    headers: Map<Seq<char>, Seq<char>>,
    macros: Seq<Share>,
) -> Seq<(Seq<char>, Seq<char>)>
    decreases macros.len(),
{
    if macros.len() == 0 {
        header_entries(headers)
    } else {
        let m = macros.last();
        document_entries(headers, macros.drop_last()) + macro_entries(m.name, m.action, m.meta)
    }
}

/// Share text of headers and macros.
pub open spec fn share_text(
    headers: Map<Seq<char>, Seq<char>>,
    macros: Seq<Share>,
) -> Seq<char> {
    entry_text(document_entries(headers, macros))
}

/// Models of the macros handed to [`export`].
pub open spec fn shares(v: Seq<(String, String, &TextMap<String>)>) -> Seq<Share> {
    Seq::new(
        v.len(),
        |i: int|
            Share { name: v[i].0@, action: v[i].1@, meta: text_map::texts(v[i].2@) },
    )
}

/// Entries written one after the other.
pub proof fn lemma_entry_text_concat(
    a: Seq<(Seq<char>, Seq<char>)>,
    b: Seq<(Seq<char>, Seq<char>)>,
)
    ensures
        entry_text(a + b) == entry_text(a) + entry_text(b),
    decreases b.len(),
{
    if b.len() == 0 {
        assert(a + b == a);
        assert(entry_text(a) + entry_text(b) == entry_text(a));
    } else {
        assert((a + b).drop_last() == a + b.drop_last());
        lemma_entry_text_concat(a, b.drop_last());
        assert(entry_text(a) + entry_text(b.drop_last()) + entry_line(b.last()) + seq!['\n']
            == entry_text(a) + (entry_text(b.drop_last()) + entry_line(b.last()) + seq!['\n']));
    }
}

fn push_entry(out: &mut String, k: &str, v: &str)
    ensures
        final(out)@ == old(out)@ + entry_text(seq![(k@, v@)]),
{
    out.append(k);
    out.append(": ");
    out.append(v);
    out.push('\n');
    proof {
        reveal_strlit(": ");
        assert(": "@ == seq![':', ' ']);
        let one = seq![(k@, v@)];
        assert(one.drop_last() == Seq::<(Seq<char>, Seq<char>)>::empty());
        assert(entry_text(one) == entry_line((k@, v@)) + seq!['\n']) by {
            assert(entry_text(one.drop_last()) + entry_line(one.last()) + seq!['\n']
                == entry_line((k@, v@)) + seq!['\n']);
        }
    }
}

/// Appends the entries of `m` that `skip_a` and `skip_b` do not name.
fn push_listed(out: &mut String, m: &TextMap<String>, skip_a: &str, skip_b: &str)
    ensures
        final(out)@ == old(out)@ + entry_text(
            listed(
                text_map::texts(m@),
                text_map::in_order(m@.dom()),
                set![skip_a@, skip_b@],
            ),
        ),
{
    let ghost tm = text_map::texts(m@);
    let ghost keys = text_map::in_order(m@.dom());
    let ghost skipped = set![skip_a@, skip_b@];
    let n: usize = m.len();
    let mut i: usize = 0;
    assert(old(out)@ + entry_text(listed(tm, keys.take(0), skipped)) == old(out)@);
    while i < n
        invariant
            i <= n,
            n == m@.dom().len(),
            n == keys.len(),
            keys == text_map::in_order(m@.dom()),
            tm == text_map::texts(m@),
            skipped == set![skip_a@, skip_b@],
            out@ == old(out)@ + entry_text(listed(tm, keys.take(i as int), skipped)),
        decreases n - i,
    {
        let k = m.key_at(i);
        let v = m.value_at(i);
        proof {
            assert(keys.take(i + 1).drop_last() == keys.take(i as int));
            assert(keys.take(i + 1).last() == k@);
            assert(tm[k@] == v@);
        }
        if !text::str_eq(k.as_str(), skip_a) && !text::str_eq(k.as_str(), skip_b) {
            proof {
                let l = listed(tm, keys.take(i as int), skipped);
                lemma_entry_text_concat(l, seq![(k@, v@)]);
                assert(l.push((k@, v@)) == l + seq![(k@, v@)]);
                assert(out@ + entry_text(seq![(k@, v@)]) == old(out)@ + (entry_text(l)
                    + entry_text(seq![(k@, v@)])));
            }
            push_entry(out, k.as_str(), v.as_str());
        }
        i = i + 1;
    }
    assert(keys.take(i as int) == keys);
}

/// Rebuild share text from headers + macros (export).
pub fn export(
    headers: &TextMap<String>,
    macros: &[(String, String, &TextMap<String>)],
) -> (r: String)
    ensures
        r@ == share_text(text_map::texts(headers@), shares(macros@)),
{
    let ghost hm = text_map::texts(headers@);
    let ghost sv = shares(macros@);
    let mut out: String = String::new();
    let ghost others = listed(hm, text_map::in_order(hm.dom()), set!["game"@]);
    assert(set!["game"@, "game"@] =~= set!["game"@]);
    assert(hm.dom() =~= headers@.dom());
    match headers.get("game") {
        Some(game) => {
            push_entry(&mut out, "game", game.as_str());
            proof {
                lemma_entry_text_concat(seq![("game"@, game@)], others);
                assert(Seq::<char>::empty() + entry_text(seq![("game"@, game@)]) == entry_text(
                    seq![("game"@, game@)],
                ));
            }
        },
        None => {},
    }
    let ghost first = out@;
    push_listed(&mut out, headers, "game", "game");
    assert(out@ == entry_text(header_entries(hm))) by {
        assert(first.len() == 0 ==> first + entry_text(others) == entry_text(others));
    }
    let mut i: usize = 0;
    assert(sv.take(0) == Seq::<Share>::empty());
    while i < macros.len()
        invariant
            i <= macros@.len(),
            sv == shares(macros@),
            out@ == share_text(hm, sv.take(i as int)),
        decreases macros@.len() - i,
    {
        let (name, action, meta) = &macros[i];
        let ghost tm = text_map::texts(meta@);
        let ghost a = seq![("name"@, name@)];
        let ghost b = listed(tm, text_map::in_order(tm.dom()), set!["action"@, "name"@]);
        let ghost c = seq![("action"@, action@)];
        let ghost before = out@;
        proof {
            assert(tm.dom() =~= meta@.dom());
            assert(sv.take(i + 1).drop_last() == sv.take(i as int));
            assert(sv.take(i + 1).last() == (Share { name: name@, action: action@, meta: tm }));
            lemma_entry_text_concat(a, b);
            lemma_entry_text_concat(a + b, c);
            lemma_entry_text_concat(document_entries(hm, sv.take(i as int)), a + b + c);
        }
        push_entry(&mut out, "name", name.as_str());
        push_listed(&mut out, meta, "action", "name");
        push_entry(&mut out, "action", action.as_str());
        assert(out@ == before + (entry_text(a) + entry_text(b) + entry_text(c)));
        i = i + 1;
    }
    assert(sv.take(i as int) == sv);
    out
}

/// Export a single macro with optional catalog headers.
pub fn export_one(
    headers: &TextMap<String>,
    name: &str,
    action: &str,
    meta: &TextMap<String>,
) -> (r: String)
    ensures
        r@ == share_text(
            text_map::texts(headers@),
            seq![Share { name: name@, action: action@, meta: text_map::texts(meta@) }],
        ),
{
    let mut one: Vec<(String, String, &TextMap<String>)> = Vec::new();
    one.push((text::own(name), text::own(action), meta));
    assert(shares(one@) =~= seq![
        Share { name: name@, action: action@, meta: text_map::texts(meta@) },
    ]);
    export(headers, one.as_slice())
}

// ---------------------------------------------------------------------------
// Game references
// ---------------------------------------------------------------------------

/// Game named by a `game: <appid>|<name>` header.
#[derive(Debug, Clone, PartialEq, Eq)]
pub struct GameRef {
    pub appid: Option<u32>,
    pub name: String,
}

/// Text before the first `|`, trimmed.
pub open spec fn game_ref_left(value: Seq<char>) -> Seq<char> {
    text::trim(value.take(text::find(value, '|')))
}

/// Text behind the first `|`, trimmed.
pub open spec fn game_ref_right(value: Seq<char>) -> Seq<char> {
    let bar = text::find(value, '|');
    if bar < value.len() {
        text::trim(value.skip(bar + 1))
    } else {
        seq![]
    }
}

impl GameRef {
    /// Split `<appid>|<name>` on the first `|`.
    pub fn parse(value: &str) -> (r: Self)
        ensures
            r.name@ == game_ref_right(value@),
            match r.appid {
                Some(n) => text::parse_unsigned(game_ref_left(value@), u32::MAX as nat) == Some(
                    n as nat,
                ),
                None => text::parse_unsigned(game_ref_left(value@), u32::MAX as nat) is None,
            },
    {
        let cs = text::chars_of(value);
        let bar: usize = text::chars_find(cs.as_slice(), '|');
        assert(cs@.subrange(0, bar as int) == cs@.take(bar as int));
        let left = text::chars_trim(slice_subrange(cs.as_slice(), 0, bar));
        let appid = text::chars_parse_unsigned(left, u32::MAX);
        let name = if bar < cs.len() {
            assert(cs@.subrange(bar + 1, cs@.len() as int) == cs@.skip(bar + 1));
            text::to_text(text::chars_trim(slice_subrange(cs.as_slice(), bar + 1, cs.len())))
        } else {
            String::new()
        };
        GameRef { appid, name }
    }

    /// Header value for a game.
    pub fn format(appid: Option<u32>, name: &str) -> (r: String)
        ensures
            r@ == match appid {
                Some(id) => text::dec(id as nat) + "|"@ + name@,
                None => "|"@ + name@,
            },
    {
        match appid {
            Some(id) => {
                let id_text = text::dec_text(id as u64);
                text::cat3(id_text.as_str(), "|", name)
            },
            None => text::cat2("|", name),
        }
    }
}

} // verus!
