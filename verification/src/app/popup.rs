//! The tray flyout, and how pads are named in the settings.
use crate::analytics::store;
use crate::analytics::store::ControllerAnalytics;
use crate::app::pads;
use crate::app::pads::{find_pad, Pads, PowerOffGate};
use crate::controller::identity;
use crate::text;
use crate::text_map;
use vstd::prelude::*;

verus! {

/// The nickname that is being typed in the flyout.
#[derive(Debug)]
pub struct PopupState {
    /// Serial of the pad that is being named.
    pub editing: Option<String>,
    pub draft: String,
}

/// Model of [`PopupState`].
#[verifier::ext_equal]
pub struct PopupView {
    pub editing: Option<Seq<char>>,
    pub draft: Seq<char>,
}

impl View for PopupState {
    type V = PopupView;

    open spec fn view(&self) -> PopupView {
        PopupView {
            editing: match self.editing {
                Some(s) => Some(s@),
                None => None,
            },
            draft: self.draft@,
        }
    }
}

/// A message of the flyout.
#[derive(Debug)]
pub enum PopupMessage {
    OpenSettings,
    Identify(String),
    PowerOff(String),
    ToggleRemember(String),
    BeginEdit(String),
    DraftChanged(String),
    CommitNickname,
    CancelEdit,
}

/// Something that the flyout asks for.
#[derive(Debug, Clone, Copy, PartialEq, Eq, Structural)]
pub enum PopupEffect {
    ClosePopup,
    OpenSettings,
    /// Flash the lightbar of the pad, at this battery level.
    Flash(u8),
    PowerOff,
    /// Write the remembered pads and redraw the rows.
    SaveKnown,
    /// Put the cursor into the nickname field and select what is there.
    FocusNickname,
}

impl PopupView {
    /// The flyout with nothing being typed.
    pub open spec fn idle() -> PopupView {
        PopupView { editing: None, draft: seq![] }
    }
}

/// The pads once one was given a nickname.
pub open spec fn named(p: pads::PadsView, serial: Seq<char>, nickname: Seq<char>) -> pads::PadsView {
    if pads::is_emulated(serial) {
        p
    } else {
        pads::PadsView { known: p.known.with_nickname(serial, Some(nickname)), ..p }
    }
}

/// What a message leads to: the flyout, the pads, and what is asked for.
pub open spec fn popup_result(s: PopupView, p: pads::PadsView, m: PopupMessage) -> (
    PopupView,
    pads::PadsView,
    Seq<PopupEffect>,
) {
    match m {
        PopupMessage::OpenSettings => (
            PopupView::idle(),
            p,
            seq![PopupEffect::ClosePopup, PopupEffect::OpenSettings],
        ),
        PopupMessage::Identify(serial) => (
            s,
            p,
            match p.identify_percent(serial@) {
                Some(percent) => seq![PopupEffect::Flash(percent)],
                None => seq![],
            },
        ),
        PopupMessage::PowerOff(serial) => (
            s,
            p,
            if p.power_off_gate(serial@) == PowerOffGate::Send {
                seq![PopupEffect::PowerOff]
            } else {
                seq![]
            },
        ),
        PopupMessage::ToggleRemember(serial) => (
            s,
            pads::PadsView { known: p.toggled(serial@), ..p },
            if pads::is_emulated(serial@) {
                seq![]
            } else {
                seq![PopupEffect::SaveKnown]
            },
        ),
        PopupMessage::BeginEdit(serial) => (
            PopupView {
                editing: Some(serial@),
                draft: match pads::nickname_of(p.known, serial@) {
                    Some(n) => n,
                    None => seq![],
                },
            },
            p,
            seq![PopupEffect::FocusNickname],
        ),
        PopupMessage::DraftChanged(t) => (PopupView { draft: t@, ..s }, p, seq![]),
        PopupMessage::CommitNickname => match s.editing {
            Some(serial) => {
                let after = named(p, serial, s.draft);
                (
                    PopupView::idle(),
                    after,
                    if after.known.nicknames != p.known.nicknames {
                        seq![PopupEffect::SaveKnown]
                    } else {
                        seq![]
                    },
                )
            },
            None => (s, p, seq![]),
        },
        PopupMessage::CancelEdit => (PopupView::idle(), p, seq![]),
    }
}

impl PopupState {
    /// Nothing is being typed.
    pub fn new() -> (r: Self)
        ensures
            r@ == PopupView::idle(),
    {
        let r = PopupState { editing: None, draft: String::new() };
        assert(r@ =~= PopupView::idle());
        r
    }

    /// Throws away what is being typed.
    pub fn cancel(&mut self)
        ensures
            final(self)@ == PopupView::idle(),
    {
        *self = PopupState::new();
    }

    /// Whether a nickname is being typed.
    pub fn is_editing_any(&self) -> (r: bool)
        ensures
            r == (self@.editing is Some),
    {
        self.editing.is_some()
    }

    /// Handles a message of the flyout.
    pub fn on_popup_message(&mut self, m: PopupMessage, p: &mut Pads) -> (r: Vec<PopupEffect>)
        ensures
            (final(self)@, final(p)@, r@) == popup_result(old(self)@, old(p)@, m),
    {
        let mut out: Vec<PopupEffect> = Vec::new();
        let ghost want = popup_result(self@, p@, m);
        match m {
            PopupMessage::OpenSettings => {
                self.cancel();
                out.push(PopupEffect::ClosePopup);
                out.push(PopupEffect::OpenSettings);
            },
            PopupMessage::Identify(serial) => {
                if let Some(percent) = p.identify(serial.as_str()) {
                    out.push(PopupEffect::Flash(percent));
                }
            },
            PopupMessage::PowerOff(serial) => {
                if p.power_off(serial.as_str()) == PowerOffGate::Send {
                    out.push(PopupEffect::PowerOff);
                }
            },
            PopupMessage::ToggleRemember(serial) => {
                if p.toggle_remember(serial.as_str()) {
                    out.push(PopupEffect::SaveKnown);
                }
            },
            PopupMessage::BeginEdit(serial) => {
                let current = match p.known.nickname(serial.as_str()) {
                    Some(n) => text::own(n),
                    None => String::new(),
                };
                self.draft = current;
                self.editing = Some(serial);
                out.push(PopupEffect::FocusNickname);
            },
            PopupMessage::DraftChanged(t) => {
                self.draft = t;
            },
            PopupMessage::CommitNickname => {
                if let Some(serial) = self.editing.take() {
                    let name = self.draft.clone();
                    self.cancel();
                    if p.set_nickname(serial.as_str(), Some(name)) {
                        out.push(PopupEffect::SaveKnown);
                    }
                }
            },
            PopupMessage::CancelEdit => {
                self.cancel();
            },
        }
        assert(self@ =~= want.0);
        assert(out@ =~= want.2);
        out
    }
}

// ---------------------------------------------------------------------------
// Names in the settings
// ---------------------------------------------------------------------------

/// First place from which a text has at most `n` bytes left.
pub open spec fn tail_at(s: Seq<char>, n: nat) -> int
    decreases s.len(),
{
    if s.len() == 0 || vstd::utf8::encode_utf8(s).len() <= n {
        0
    } else {
        1 + tail_at(s.drop_first(), n)
    }
}

/// Whether a text has a tail of exactly `n` bytes.
pub open spec fn has_tail(s: Seq<char>, n: nat) -> bool {
    vstd::utf8::encode_utf8(s.skip(tail_at(s, n))).len() == n
}

fn char_bytes(c: char) -> (r: usize)
    ensures
        r == vstd::utf8::encode_scalar(c as u32).len(),
        r <= 4,
{
    let u: u32 = c as u32;
    if u <= 0x7F {
        1
    } else if u <= 0x7FF {
        2
    } else if u <= 0xFFFF {
        3
    } else {
        4
    }
}

/// The last characters of a text that make up `n` bytes.
fn tail(s: &str, n: usize) -> (r: String)
    requires
        has_tail(s@, n as nat),
    ensures
        r@ == s@.skip(tail_at(s@, n as nat)),
{
    let cs = text::chars_of(s);
    let mut at: usize = 0;
    let mut left: usize = text::byte_len(s);
    assert(s@.skip(0) =~= s@);
    while at < cs.len() && left > n
        invariant
            at <= cs@.len(),
            cs@ == s@,
            left == vstd::utf8::encode_utf8(s@.skip(at as int)).len(),
            tail_at(s@, n as nat) == at + tail_at(s@.skip(at as int), n as nat),
        decreases cs@.len() - at,
    {
        let ghost t = s@.skip(at as int);
        assert(t.drop_first() =~= s@.skip(at + 1));
        assert(t[0] == cs@[at as int]);
        left = left - char_bytes(cs[at]);
        at = at + 1;
    }
    text::to_text(text::slice_to_vec_range(cs.as_slice(), at, cs.len()).as_slice())
}

/// Name of a pad in the settings: its nickname, else its product while it is connected, else
/// its serial, shortened to the last six bytes when it is long.
pub open spec fn panel_label(p: pads::PadsView, serial: Seq<char>) -> Seq<char> {
    let at = pads::pad_at(p.controllers, serial);
    match pads::nickname_of(p.known, serial) {
        Some(n) if n.len() > 0 => n,
        _ => if at < p.controllers.len() {
            p.controllers[at].product
        } else if vstd::utf8::encode_utf8(serial).len() > 8 {
            "Pad …"@ + serial.skip(tail_at(serial, 6))
        } else {
            serial
        },
    }
}

/// Whether the name of a pad can be told: a serial that is shortened has a tail of six bytes.
pub open spec fn labels(p: pads::PadsView, serial: Seq<char>) -> bool {
    let named = pads::nickname_of(p.known, serial) matches Some(n) && n.len() > 0;
    named || pads::pad_at(p.controllers, serial) < p.controllers.len()
        || vstd::utf8::encode_utf8(serial).len() <= 8 || has_tail(serial, 6)
}

/// A pad of the settings' analytics page.
#[derive(Debug)]
pub struct AnalyticsPadRow {
    pub label: String,
    pub row: ControllerAnalytics,
}

/// Labels and rows of the analytics page.
pub open spec fn panel_views(v: Seq<AnalyticsPadRow>) -> Seq<(Seq<char>, store::AnalyticsRow)> {
    Seq::new(v.len(), |i: int| (v[i].label@, v[i].row@))
}

/// Labelled rows.
pub open spec fn labelled(p: pads::PadsView, rs: Seq<store::AnalyticsRow>) -> Seq<
    (Seq<char>, store::AnalyticsRow),
> {
    Seq::new(rs.len(), |i: int| (panel_label(p, rs[i].serial), rs[i]))
}

impl pads::PadsView {
    /// Rows of the pads of which something was learned, by serial.
    pub open spec fn panel(self) -> Seq<store::AnalyticsRow> {
        store::rows(self.analytics.records, text_map::in_order(self.analytics.records.dom()))
    }
}

impl Pads {
    /// Name of a pad in the settings.
    pub fn panel_label(&self, serial: &str) -> (r: String)
        requires
            labels(self@, serial@),
        ensures
            r@ == panel_label(self@, serial@),
    {
        if let Some(n) = self.known.nickname(serial) {
            if !n.is_empty() {
                return text::own(n);
            }
        }
        let at: usize = find_pad(self.controllers.as_slice(), serial);
        if at < self.controllers.len() {
            return text::own(self.controllers[at].product);
        }
        if text::byte_len(serial) > 8 {
            let t = tail(serial, 6);
            text::cat2("Pad …", t.as_str())
        } else {
            text::own(serial)
        }
    }

    /// The analytics page: nothing while analytics are off.
    pub fn analytics_panel(&self, enabled: bool) -> (r: Vec<AnalyticsPadRow>)
        requires
            enabled ==> forall|i: int|
                0 <= i < self@.panel().len() ==> labels(
                    self@,
                    (#[trigger] self@.panel()[i]).serial,
                ),
        ensures
            panel_views(r@) == (if enabled {
                labelled(self@, self@.panel())
            } else {
                seq![]
            }),
    {
        let mut out: Vec<AnalyticsPadRow> = Vec::new();
        if !enabled {
            assert(panel_views(out@) =~= seq![]);
            return out;
        }
        let ghost rs = self@.panel();
        let ghost want = labelled(self@, rs);
        let mut rest = self.analytics.panel_rows();
        assert(store::row_views(rest@) == rs);
        assert(panel_views(out@) =~= want.take(0));
        assert(rs.skip(0) =~= rs);
        while rest.len() > 0
            invariant
                rest@.len() <= rs.len(),
                rs == self@.panel(),
                want == labelled(self@, rs),
                store::row_views(rest@) == rs.skip(rs.len() - rest@.len()),
                panel_views(out@) == want.take(rs.len() - rest@.len()),
                forall|i: int|
                    0 <= i < self@.panel().len() ==> labels(
                        self@,
                        (#[trigger] self@.panel()[i]).serial,
                    ),
            decreases rest@.len(),
        {
            let ghost i = rs.len() - rest@.len();
            let ghost r0 = store::row_views(rest@);
            assert(r0[0] == rs[i]);
            let row = rest.remove(0);
            assert(row@ == rs[i]);
            assert(self@.panel()[i].serial == row.serial@);
            let label = self.panel_label(row.serial.as_str());
            let ghost before = panel_views(out@);
            let ghost item = (label@, row@);
            out.push(AnalyticsPadRow { label, row });
            assert(panel_views(out@) =~= before.push(item));
            assert(want.take(i + 1) =~= want.take(i).push(item));
            assert(store::row_views(rest@) =~= rs.skip(i + 1)) by {
                assert forall|k: int| 0 <= k < rest@.len() implies store::row_views(rest@)[k]
                    == rs.skip(i + 1)[k] by {
                    assert(store::row_views(rest@)[k] == r0[k + 1]);
                }
            }
        }
        assert(want.take(rs.len() as int) =~= want);
        out
    }
}

// ---------------------------------------------------------------------------
// Laws
// ---------------------------------------------------------------------------

/// A name that is typed and committed is the pad's nickname, blanks around it aside.
pub proof fn law_committed_nickname_is_kept(
    s: PopupView,
    p: pads::PadsView,
    serial: Seq<char>,
)
    requires
        s.editing == Some(serial),
        !pads::is_emulated(serial),
        identity::storable(serial),
        text::trim(s.draft).len() > 0,
    ensures
        pads::nickname_of(popup_result(s, p, PopupMessage::CommitNickname).1.known, serial) == Some(
            text::trim(s.draft),
        ),
{
}

/// Cancelling changes no pad.
pub proof fn law_cancelled_nickname_is_forgotten(s: PopupView, p: pads::PadsView)
    ensures
        popup_result(s, p, PopupMessage::CancelEdit).1 == p,
        popup_result(s, p, PopupMessage::CancelEdit).0.editing is None,
{
}

} // verus!
