//! The application's windows: which exist, their titles, and how they stack.
use crate::platform::DISPLAY_NAME;
use vstd::prelude::*;

verus! {

/// Windows that exist, by the id the window system gave them.
#[derive(Debug, Clone, Copy, PartialEq, Eq, Structural)]
pub struct Windows {
    pub popup: Option<u64>,
    pub configure: Option<u64>,
    pub start: Option<u64>,
    pub toast: Option<u64>,
}

/// What a window is for.
#[derive(Debug, Clone, Copy, PartialEq, Eq, Structural)]
pub enum WindowRole {
    Popup,
    Configure,
    Start,
    Toast,
}

/// Something to do to a window.
#[derive(Debug, Clone, Copy, PartialEq, Eq, Structural)]
pub enum WindowEffect {
    Open(WindowRole, u64),
    Focus(u64),
    Show(u64),
    Hide(u64),
    Close(u64),
    Drag(u64),
    /// Bring it above the toast.
    Raise(u64),
    /// Keep the toast above everything else.
    PinToast(u64),
    /// Ask for scale and monitor, to place the popup.
    MeasurePopup(u64),
    /// Place and show the popup.
    RevealPopup(u64),
}

/// One effect on a window that may not exist.
pub open spec fn raised(id: Option<u64>) -> Seq<WindowEffect> {
    match id {
        Some(i) => seq![WindowEffect::Raise(i)],
        None => seq![],
    }
}

/// Effects that hide a window and then close it, so that its teardown cannot be seen.
pub open spec fn hidden_and_closed(id: Option<u64>) -> Seq<WindowEffect> {
    match id {
        Some(i) => seq![WindowEffect::Hide(i), WindowEffect::Close(i)],
        None => seq![],
    }
}

impl Windows {
    /// No window yet.
    pub fn none() -> (r: Self)
        ensures
            r == (Windows { popup: None, configure: None, start: None, toast: None }),
    {
        Windows { popup: None, configure: None, start: None, toast: None }
    }

    /// What a window is for.
    pub open spec fn role(self, id: u64) -> Option<WindowRole> {
        if self.popup == Some(id) {
            Some(WindowRole::Popup)
        } else if self.configure == Some(id) {
            Some(WindowRole::Configure)
        } else if self.start == Some(id) {
            Some(WindowRole::Start)
        } else if self.toast == Some(id) {
            Some(WindowRole::Toast)
        } else {
            None
        }
    }

    /// The windows without one.
    pub open spec fn without(self, role: WindowRole) -> Windows {
        match role {
            WindowRole::Popup => Windows { popup: None, ..self },
            WindowRole::Configure => Windows { configure: None, ..self },
            WindowRole::Start => Windows { start: None, ..self },
            WindowRole::Toast => Windows { toast: None, ..self },
        }
    }

    /// The windows with a new one.
    pub open spec fn with(self, role: WindowRole, id: u64) -> Windows {
        match role {
            WindowRole::Popup => Windows { popup: Some(id), ..self },
            WindowRole::Configure => Windows { configure: Some(id), ..self },
            WindowRole::Start => Windows { start: Some(id), ..self },
            WindowRole::Toast => Windows { toast: Some(id), ..self },
        }
    }

    /// The id of a window.
    pub open spec fn id(self, role: WindowRole) -> Option<u64> {
        match role {
            WindowRole::Popup => self.popup,
            WindowRole::Configure => self.configure,
            WindowRole::Start => self.start,
            WindowRole::Toast => self.toast,
        }
    }

    /// The window that is focused beside a toast: settings, then start screen, then popup.
    pub open spec fn focus_target(self) -> Option<u64> {
        if self.configure is Some {
            self.configure
        } else if self.start is Some {
            self.start
        } else {
            self.popup
        }
    }

    /// Effects that bring the interactive windows above the toast, the last on top.
    pub open spec fn raise_all(self, focus: bool) -> Seq<WindowEffect> {
        raised(self.popup) + raised(self.start) + raised(self.configure) + (match (
            focus,
            self.focus_target(),
        ) {
            (true, Some(i)) => seq![WindowEffect::Focus(i)],
            _ => seq![],
        })
    }

    /// Effects that restore the stacking after a window opened or closed.
    pub open spec fn zorder(self, toast_on: bool) -> Seq<WindowEffect> {
        match self.toast {
            Some(i) => if toast_on {
                seq![WindowEffect::PinToast(i)] + self.raise_all(true)
            } else {
                seq![]
            },
            None => seq![],
        }
    }

    /// Executable form of [`Windows::role`].
    pub fn role_of(&self, id: u64) -> (r: Option<WindowRole>)
        ensures
            r == self.role(id),
    {
        if self.popup == Some(id) {
            Some(WindowRole::Popup)
        } else if self.configure == Some(id) {
            Some(WindowRole::Configure)
        } else if self.start == Some(id) {
            Some(WindowRole::Start)
        } else if self.toast == Some(id) {
            Some(WindowRole::Toast)
        } else {
            None
        }
    }

    /// Title of a window.
    pub fn title(&self, id: u64) -> (r: &'static str)
        ensures
            r@ == (if self.configure == Some(id) {
                "Settings"@
            } else if self.start == Some(id) {
                ""@
            } else {
                DISPLAY_NAME@
            }),
    {
        if self.configure == Some(id) {
            "Settings"
        } else if self.start == Some(id) {
            ""
        } else {
            DISPLAY_NAME
        }
    }

    /// Whether a window is drawn with the toast theme.
    pub fn toast_themed(&self, id: u64) -> (r: bool)
        ensures
            r == (self.toast == Some(id)),
    {
        self.toast == Some(id)
    }

    /// A window was closed.
    pub fn forget(&mut self, role: WindowRole)
        ensures
            *final(self) == old(self).without(role),
    {
        match role {
            WindowRole::Popup => self.popup = None,
            WindowRole::Configure => self.configure = None,
            WindowRole::Start => self.start = None,
            WindowRole::Toast => self.toast = None,
        }
    }

    /// Brings the interactive windows above the toast.
    pub fn raise_interactive_ui_above_toast(&self, focus: bool, out: &mut Vec<WindowEffect>)
        ensures
            final(out)@ == old(out)@ + self.raise_all(focus),
    {
        let ghost before = out@;
        if let Some(i) = self.popup {
            out.push(WindowEffect::Raise(i));
        }
        if let Some(i) = self.start {
            out.push(WindowEffect::Raise(i));
        }
        if let Some(i) = self.configure {
            out.push(WindowEffect::Raise(i));
        }
        if focus {
            if let Some(i) = self.configure {
                out.push(WindowEffect::Focus(i));
            } else if let Some(i) = self.start {
                out.push(WindowEffect::Focus(i));
            } else if let Some(i) = self.popup {
                out.push(WindowEffect::Focus(i));
            }
        }
        assert(out@ =~= before + self.raise_all(focus));
    }

    /// Restores the stacking after a window opened or closed.
    pub fn sync_toast_zorder(&self, toast_on: bool, out: &mut Vec<WindowEffect>)
        ensures
            final(out)@ == old(out)@ + self.zorder(toast_on),
    {
        let ghost before = out@;
        if let Some(i) = self.toast {
            if toast_on {
                out.push(WindowEffect::PinToast(i));
                self.raise_interactive_ui_above_toast(true, out);
                assert(out@ =~= before + (seq![WindowEffect::PinToast(i)] + self.raise_all(true)));
                return;
            }
        }
        assert(out@ =~= before + Seq::<WindowEffect>::empty());
    }

    /// Opens a window as `id`, or focuses the one that is there.
    pub fn open(&mut self, role: WindowRole, id: u64, toast_on: bool) -> (r: Vec<WindowEffect>)
        ensures
            match old(self).id(role) {
                Some(i) => *final(self) == *old(self) && r@ == seq![WindowEffect::Focus(i)],
                None => {
                    &&& *final(self) == old(self).with(role, id)
                    &&& r@ == seq![WindowEffect::Open(role, id)] + old(self).with(
                        role,
                        id,
                    ).zorder(toast_on)
                },
            },
    {
        let mut out: Vec<WindowEffect> = Vec::new();
        let there = match role {
            WindowRole::Popup => self.popup,
            WindowRole::Configure => self.configure,
            WindowRole::Start => self.start,
            WindowRole::Toast => self.toast,
        };
        if let Some(i) = there {
            out.push(WindowEffect::Focus(i));
            assert(out@ =~= seq![WindowEffect::Focus(i)]);
            return out;
        }
        match role {
            WindowRole::Popup => self.popup = Some(id),
            WindowRole::Configure => self.configure = Some(id),
            WindowRole::Start => self.start = Some(id),
            WindowRole::Toast => self.toast = Some(id),
        }
        out.push(WindowEffect::Open(role, id));
        self.sync_toast_zorder(toast_on, &mut out);
        assert(out@ =~= seq![WindowEffect::Open(role, id)] + self.zorder(toast_on));
        out
    }
}

/// Hides a window and then closes it.
pub fn push_hide_and_close(id: Option<u64>, out: &mut Vec<WindowEffect>)
    ensures
        final(out)@ == old(out)@ + hidden_and_closed(id),
{
    let ghost before = out@;
    if let Some(i) = id {
        out.push(WindowEffect::Hide(i));
        out.push(WindowEffect::Close(i));
    }
    assert(out@ =~= before + hidden_and_closed(id));
}

/// The settings end up on top: of the windows that are raised above a toast, they come last.
pub proof fn law_settings_end_on_top(w: Windows, i: u64)
    requires
        w.configure == Some(i),
    ensures
        w.raise_all(true).last() == WindowEffect::Focus(i),
        w.raise_all(false).last() == WindowEffect::Raise(i),
{
}

} // verus!
