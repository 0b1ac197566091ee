//! Toasts: shown one at a time, in order, each for a while.
use crate::games;
use crate::notify;
use crate::notify::NotifyEvent;
use crate::app::polling;
use vstd::prelude::*;

verus! {

/// How long a toast stays on screen.
pub const TOAST_LIFETIME_MS: u64 = 5000;

/// What a toast shows.
#[derive(Debug, Clone, PartialEq, Eq)]
pub enum ToastMessage {
    Notification { event: NotifyEvent, eta: Option<String> },
    /// Shows where toasts appear.
    Preview,
    /// The app was restarted after a crash.
    CrashRestart,
}

/// Model of [`ToastMessage`].
#[verifier::ext_equal]
pub enum ToastView {
    Notification { event: notify::EventView, eta: Option<Seq<char>> },
    Preview,
    CrashRestart,
}

impl View for ToastMessage {
    type V = ToastView;

    open spec fn view(&self) -> ToastView {
        match *self {
            ToastMessage::Notification { event, eta } => ToastView::Notification {
                event: event@,
                eta: games::text_option(eta),
            },
            ToastMessage::Preview => ToastView::Preview,
            ToastMessage::CrashRestart => ToastView::CrashRestart,
        }
    }
}

/// Models of a list of toasts.
pub open spec fn toast_views(v: Seq<ToastMessage>) -> Seq<ToastView> {
    Seq::new(v.len(), |i: int| v[i]@)
}

/// Something to do for a toast.
#[derive(Debug, Clone, Copy, PartialEq, Eq, Structural)]
pub enum ToastEffect {
    /// Open the toast window, then place it for this generation.
    OpenAndPlace(u64),
    /// Place the window for this generation.
    Place(u64),
    /// Dismiss this generation after its lifetime.
    ExpireLater(u64),
    /// Mount the content of this generation and show the window.
    Present(u64),
    /// Draw the slide at this time since it began.
    Slide { elapsed_ms: u64, out: bool },
    Hide,
    /// Open the toast window hidden.
    OpenHidden,
}

/// Toasts on screen and waiting.
#[derive(Debug)]
pub struct Toasts {
    pub current: Option<ToastMessage>,
    pub queue: Vec<ToastMessage>,
    /// Counts toasts, so that the expiry of one does not dismiss another.
    pub generation: u64,
    /// The current toast has its place.
    pub placed: bool,
    pub anim_started_ms: u64,
    pub dismissing: bool,
    /// The toast window exists.
    pub window: bool,
}

/// Model of [`Toasts`].
#[verifier::ext_equal]
pub struct ToastsView {
    pub current: Option<ToastView>,
    pub queue: Seq<ToastView>,
    pub generation: u64,
    pub placed: bool,
    pub anim_started_ms: u64,
    pub dismissing: bool,
    pub window: bool,
}

impl View for Toasts {
    type V = ToastsView;

    open spec fn view(&self) -> ToastsView {
        ToastsView {
            current: match self.current {
                Some(m) => Some(m@),
                None => None,
            },
            queue: toast_views(self.queue@),
            generation: self.generation,
            placed: self.placed,
            anim_started_ms: self.anim_started_ms,
            dismissing: self.dismissing,
            window: self.window,
        }
    }
}

impl ToastsView {
    /// The next toast on screen, where none is.
    pub open spec fn shown_next(self) -> (ToastsView, Seq<ToastEffect>) {
        if self.current is Some || self.queue.len() == 0 {
            (self, seq![])
        } else {
            let g = polling::next_generation(self.generation);
            (
                ToastsView {
                    current: Some(self.queue[0]),
                    queue: self.queue.drop_first(),
                    generation: g,
                    window: true,
                    ..self
                },
                seq![
                    if self.window {
                        ToastEffect::Place(g)
                    } else {
                        ToastEffect::OpenAndPlace(g)
                    },
                    ToastEffect::ExpireLater(g),
                ],
            )
        }
    }

    /// The toast on screen gone; the next one follows, or the window hides.
    pub open spec fn finished(self) -> (ToastsView, Seq<ToastEffect>) {
        if self.current is None {
            (self, seq![])
        } else {
            let cleared = ToastsView {
                current: None,
                generation: polling::next_generation(self.generation),
                placed: false,
                dismissing: false,
                ..self
            };
            if self.queue.len() > 0 {
                cleared.shown_next()
            } else {
                (
                    cleared,
                    if self.window {
                        seq![ToastEffect::Hide]
                    } else {
                        seq![]
                    },
                )
            }
        }
    }

    /// The slide drawn at `now`; one that slid out whole is finished.
    pub open spec fn animated(self, now: u64, slide_ms: u64) -> (ToastsView, Seq<ToastEffect>) {
        let age = polling::elapsed(self.anim_started_ms, now);
        if !self.window || !self.placed {
            (self, seq![])
        } else {
            let draw = seq![ToastEffect::Slide { elapsed_ms: age as u64, out: self.dismissing }];
            if self.dismissing && age >= slide_ms {
                (self.finished().0, draw + self.finished().1)
            } else {
                (self, draw)
            }
        }
    }

    /// The toast on screen begins to slide out.
    pub open spec fn dismissed(self, now: u64, slide_ms: u64) -> (ToastsView, Seq<ToastEffect>) {
        if self.current is None || self.dismissing {
            (self, seq![])
        } else {
            (ToastsView { dismissing: true, anim_started_ms: now, ..self }).animated(now, slide_ms)
        }
    }

    /// Whether the slide is moving.
    pub open spec fn animating(self, now: u64, slide_ms: u64) -> bool {
        self.current is Some && self.placed && (self.dismissing || polling::elapsed(
            self.anim_started_ms,
            now,
        ) < slide_ms)
    }
}

fn push_all(out: &mut Vec<ToastEffect>, more: &[ToastEffect])
    ensures
        final(out)@ == old(out)@ + more@,
{
    let ghost before = out@;
    let mut i: usize = 0;
    while i < more.len()
        invariant
            i <= more@.len(),
            out@ == before + more@.take(i as int),
        decreases more@.len() - i,
    {
        out.push(more[i]);
        assert(out@ =~= before + more@.take(i + 1));
        i = i + 1;
    }
    assert(more@.take(i as int) =~= more@);
}

impl Toasts {
    /// No toast yet.
    pub fn new(now_ms: u64) -> (r: Self)
        ensures
            r@ == (ToastsView {
                current: None,
                queue: seq![],
                generation: 0,
                placed: false,
                anim_started_ms: now_ms,
                dismissing: false,
                window: false,
            }),
    {
        let r = Toasts {
            current: None,
            queue: Vec::new(),
            generation: 0,
            placed: false,
            anim_started_ms: now_ms,
            dismissing: false,
            window: false,
        };
        assert(toast_views(r.queue@) =~= Seq::<ToastView>::empty());
        r
    }

    /// Puts a toast behind the others.
    pub fn push(&mut self, message: ToastMessage)
        ensures
            final(self)@ == (ToastsView { queue: old(self)@.queue.push(message@), ..old(self)@ }),
    {
        let ghost before = toast_views(self.queue@);
        self.queue.push(message);
        assert(toast_views(self.queue@) =~= before.push(message@));
    }

    /// Puts the next toast on screen, where none is.
    pub fn show_next_toast(&mut self) -> (r: Vec<ToastEffect>)
        ensures
            (final(self)@, r@) == old(self)@.shown_next(),
    {
        let mut out: Vec<ToastEffect> = Vec::new();
        let ghost start = self@;
        if self.current.is_some() || self.queue.len() == 0 {
            return out;
        }
        let message = self.queue.remove(0);
        assert(toast_views(self.queue@) =~= start.queue.drop_first());
        self.current = Some(message);
        self.generation = self.generation.wrapping_add(1);
        if self.window {
            out.push(ToastEffect::Place(self.generation));
        } else {
            out.push(ToastEffect::OpenAndPlace(self.generation));
        }
        self.window = true;
        out.push(ToastEffect::ExpireLater(self.generation));
        assert(out@ =~= start.shown_next().1);
        out
    }

    /// Queues notifications with their time hints and shows the first.
    pub fn queue_notifications(&mut self, messages: Vec<ToastMessage>) -> (r: Vec<ToastEffect>)
        ensures
            (final(self)@, r@) == (ToastsView {
                queue: old(self)@.queue + toast_views(messages@),
                ..old(self)@
            }).shown_next(),
    {
        let ghost start = self@;
        let ghost more = messages@;
        let mut messages = messages;
        self.queue.append(&mut messages);
        assert(toast_views(self.queue@) =~= start.queue + toast_views(more));
        self.show_next_toast()
    }

    /// Replaces every waiting toast, and the one on screen, by a preview.
    pub fn show_position_preview(&mut self) -> (r: Vec<ToastEffect>)
        ensures
            ({
                let asked = ToastsView { queue: seq![ToastView::Preview], ..old(self)@ };
                let done = asked.finished();
                let shown = done.0.shown_next();
                final(self)@ == shown.0 && r@ == done.1 + shown.1
            }),
    {
        self.queue.clear();
        self.queue.push(ToastMessage::Preview);
        assert(toast_views(self.queue@) =~= seq![ToastView::Preview]);
        let mut out = self.finish_toast();
        let more = self.show_next_toast();
        push_all(&mut out, more.as_slice());
        out
    }

    /// Opens the toast window hidden, where there is none.
    pub fn ensure_toast_window(&mut self) -> (r: Vec<ToastEffect>)
        ensures
            final(self)@ == (ToastsView { window: true, ..old(self)@ }),
            r@ == (if old(self).window {
                seq![]
            } else {
                seq![ToastEffect::OpenHidden]
            }),
    {
        let mut out: Vec<ToastEffect> = Vec::new();
        if !self.window {
            self.window = true;
            out.push(ToastEffect::OpenHidden);
        }
        assert(out@ =~= (if old(self).window {
            seq![]
        } else {
            seq![ToastEffect::OpenHidden]
        }));
        out
    }

    /// Tells of a restart after a crash, once.
    pub fn maybe_show_crash_restart_toast(&mut self, pending: bool) -> (r: Vec<ToastEffect>)
        ensures
            (final(self)@, r@) == (if pending {
                (ToastsView {
                    queue: old(self)@.queue.push(ToastView::CrashRestart),
                    ..old(self)@
                }).shown_next()
            } else {
                (old(self)@, seq![])
            }),
    {
        if !pending {
            return Vec::new();
        }
        self.push(ToastMessage::CrashRestart);
        self.show_next_toast()
    }

    /// The place of a toast is known; whether it is still the one on screen.
    pub fn place(&mut self, generation: u64, now_ms: u64) -> (r: Vec<ToastEffect>)
        ensures
            (final(self)@, r@) == (if generation != old(self).generation || old(self)@.current
                is None {
                (old(self)@, seq![])
            } else {
                (
                    ToastsView {
                        placed: true,
                        anim_started_ms: now_ms,
                        dismissing: false,
                        ..old(self)@
                    },
                    seq![ToastEffect::Present(generation)],
                )
            }),
    {
        let mut out: Vec<ToastEffect> = Vec::new();
        if generation != self.generation || self.current.is_none() {
            return out;
        }
        self.placed = true;
        self.anim_started_ms = now_ms;
        self.dismissing = false;
        out.push(ToastEffect::Present(generation));
        assert(out@ =~= seq![ToastEffect::Present(generation)]);
        out
    }

    /// Takes the toast off the screen; the next one follows, or the window hides.
    pub fn finish_toast(&mut self) -> (r: Vec<ToastEffect>)
        ensures
            (final(self)@, r@) == old(self)@.finished(),
    {
        let mut out: Vec<ToastEffect> = Vec::new();
        let ghost start = self@;
        if self.current.is_none() {
            return out;
        }
        self.current = None;
        self.generation = self.generation.wrapping_add(1);
        self.placed = false;
        self.dismissing = false;
        if self.queue.len() > 0 {
            return self.show_next_toast();
        }
        if self.window {
            out.push(ToastEffect::Hide);
        }
        assert(out@ =~= start.finished().1);
        out
    }

    /// Draws the slide; one that slid out whole is finished.
    pub fn animate_toast(&mut self, now_ms: u64, slide_ms: u64) -> (r: Vec<ToastEffect>)
        ensures
            (final(self)@, r@) == old(self)@.animated(now_ms, slide_ms),
    {
        let ghost start = self@;
        let mut out: Vec<ToastEffect> = Vec::new();
        if !self.window || !self.placed {
            return out;
        }
        let age: u64 = now_ms.saturating_sub(self.anim_started_ms);
        out.push(ToastEffect::Slide { elapsed_ms: age, out: self.dismissing });
        if self.dismissing && age >= slide_ms {
            let more = self.finish_toast();
            push_all(&mut out, more.as_slice());
        }
        assert(out@ =~= start.animated(now_ms, slide_ms).1);
        out
    }

    /// Lets the toast on screen slide out.
    pub fn dismiss_toast(&mut self, now_ms: u64, slide_ms: u64) -> (r: Vec<ToastEffect>)
        ensures
            (final(self)@, r@) == old(self)@.dismissed(now_ms, slide_ms),
    {
        if self.current.is_none() || self.dismissing {
            return Vec::new();
        }
        self.dismissing = true;
        self.anim_started_ms = now_ms;
        self.animate_toast(now_ms, slide_ms)
    }

    /// A toast expired or was clicked away; one that is no longer on screen is ignored.
    pub fn on_dismiss(&mut self, generation: u64, now_ms: u64, slide_ms: u64) -> (r: Vec<
        ToastEffect,
    >)
        ensures
            (final(self)@, r@) == (if generation == old(self).generation {
                old(self)@.dismissed(now_ms, slide_ms)
            } else {
                (old(self)@, seq![])
            }),
    {
        if generation == self.generation {
            self.dismiss_toast(now_ms, slide_ms)
        } else {
            Vec::new()
        }
    }

    /// A frame of the toast: the slide moves while it is animating.
    pub fn on_frame(&mut self, now_ms: u64, slide_ms: u64) -> (r: Vec<ToastEffect>)
        ensures
            (final(self)@, r@) == (if old(self)@.animating(now_ms, slide_ms) {
                old(self)@.animated(now_ms, slide_ms)
            } else {
                (old(self)@, seq![])
            }),
    {
        if self.toast_animating(now_ms, slide_ms) {
            self.animate_toast(now_ms, slide_ms)
        } else {
            Vec::new()
        }
    }

    /// Whether the slide is moving.
    pub fn toast_animating(&self, now_ms: u64, slide_ms: u64) -> (r: bool)
        ensures
            r == self@.animating(now_ms, slide_ms),
    {
        self.current.is_some() && self.placed && (self.dismissing || now_ms.saturating_sub(
            self.anim_started_ms,
        ) < slide_ms)
    }
}

// ---------------------------------------------------------------------------
// Laws
// ---------------------------------------------------------------------------

/// The expiry of a toast that has left the screen does nothing to the one that followed.
pub proof fn law_expiry_is_for_its_own_toast(t: ToastsView)
    requires
        t.current is Some,
        t.generation < u64::MAX - 1,
    ensures
        t.finished().0.generation != t.generation,
{
}

/// Toasts are shown in the order they were queued, none lost: what was on screen and waiting
/// is, without the one that finished, what then is on screen and waiting.
pub proof fn law_toasts_come_in_order(t: ToastsView)
    requires
        t.current is Some,
        t.queue.len() > 0,
    ensures
        t.finished().0.current == Some(t.queue[0]),
        t.finished().0.queue == t.queue.drop_first(),
{
}

/// A toast on screen is never replaced by a queued one.
pub proof fn law_one_toast_at_a_time(t: ToastsView)
    requires
        t.current is Some,
    ensures
        t.shown_next() == (t, Seq::<ToastEffect>::empty()),
{
}

/// A toast that was dismissed leaves the screen once its slide is over.
pub proof fn law_dismissed_toast_leaves(t: ToastsView, begun: u64, now: u64, slide_ms: u64)
    requires
        t.current is Some,
        t.window,
        t.placed,
        !t.dismissing,
        slide_ms > 0,
        now >= begun + slide_ms,
        t.queue.len() == 0,
    ensures
        t.dismissed(begun, slide_ms).0.animated(now, slide_ms).0.current is None,
{
}

} // verus!
