//! The footer offered under a detected subshell or SSH command: a button that
//! brings shell integration to the session, one that asks the agent, and one
//! that dismisses the footer.

use vstd::prelude::*;

verus! {

/// What kind of session the footer would bring shell integration to.
#[derive(Clone, Copy, Debug, PartialEq, Eq, Structural)]
pub enum WarpificationMode {
    Ssh,
    Subshell,
}

/// The buttons of the footer.
#[derive(Clone, Copy, Debug, PartialEq, Eq, Structural)]
pub enum ZtermifyFooterViewAction {
    Ztermify,
    UseAgent,
    Dismiss,
}

/// What the footer tells its owner.
#[derive(Clone, Copy, Debug, PartialEq, Eq, Structural)]
pub enum ZtermifyFooterViewEvent {
    Ztermify { mode: WarpificationMode },
    UseAgent,
    Dismiss,
}

/// The state of the footer: the session kind it offers integration for, and
/// the label and key binding of its integration button.
#[derive(Clone, Debug)]
pub struct ZtermifyFooterView {
    mode: Option<WarpificationMode>,
    warpify_label: String,
    warpify_binding: Option<String>,
}

/// The footer's state as plain values.
pub struct FooterView {
    pub mode: Option<WarpificationMode>,
    pub warpify_label: Seq<char>,
    pub warpify_binding: Option<Seq<char>>,
}

impl View for ZtermifyFooterView {
    type V = FooterView;

    closed spec fn view(&self) -> FooterView {
        FooterView {
            mode: self.mode,
            warpify_label: self.warpify_label@,
            warpify_binding: match self.warpify_binding {
                Some(b) => Some(b@),
                None => None,
            },
        }
    }
}

/// The label of the integration button for a session kind.
pub open spec fn spec_mode_label(mode: WarpificationMode) -> Seq<char> {
    match mode {
        WarpificationMode::Ssh => "Ztermify SSH session"@,
        WarpificationMode::Subshell => "Ztermify subshell"@,
    }
}

/// The key binding of the integration button for a session kind.
pub open spec fn spec_mode_binding(mode: WarpificationMode) -> Seq<char> {
    match mode {
        WarpificationMode::Ssh => "terminal:warpify_ssh_session"@,
        WarpificationMode::Subshell => "terminal:warpify_subshell"@,
    }
}

/// The footer after an action: every button clears the session kind; the
/// integration button does nothing when no kind is set.
pub open spec fn spec_after_action(v: FooterView, action: ZtermifyFooterViewAction) -> (FooterView, Option<ZtermifyFooterViewEvent>) {
    let cleared = FooterView { mode: None, warpify_binding: None, ..v };
    match action {
        ZtermifyFooterViewAction::Ztermify => match v.mode {
            Some(mode) => (cleared, Some(ZtermifyFooterViewEvent::Ztermify { mode })),
            None => (v, None),
        },
        ZtermifyFooterViewAction::UseAgent => (cleared, Some(ZtermifyFooterViewEvent::UseAgent)),
        ZtermifyFooterViewAction::Dismiss => (cleared, Some(ZtermifyFooterViewEvent::Dismiss)),
    }
}

impl ZtermifyFooterView {
    /// A footer with no session kind, its integration button labelled for a subshell.
    pub fn new() -> (r: Self)
        ensures
            r@ == (FooterView { mode: None, warpify_label: "Ztermify subshell"@, warpify_binding: None }),
    {
        ZtermifyFooterView {
            mode: None,
            warpify_label: String::from_str("Ztermify subshell"),
            warpify_binding: None,
        }
    }

    /// The label of the integration button.
    pub fn warpify_label(&self) -> (r: &str)
        ensures
            r@ == self@.warpify_label,
    {
        self.warpify_label.as_str()
    }

    /// The key binding of the integration button.
    pub fn warpify_binding(&self) -> (r: Option<&str>)
        ensures
            match r {
                Some(b) => self@.warpify_binding == Some(b@),
                None => self@.warpify_binding is None,
            },
    {
        match &self.warpify_binding {
            Some(b) => Some(b.as_str()),
            None => None,
        }
    }

    /// Updates the integration button's label and key binding, and stores the
    /// session kind.
    pub fn set_mode(&mut self, mode: WarpificationMode)
        ensures
            final(self)@ == (FooterView {
                mode: Some(mode),
                warpify_label: spec_mode_label(mode),
                warpify_binding: Some(spec_mode_binding(mode)),
            }),
    {
        let (label, binding) = match mode {
            WarpificationMode::Ssh => ("Ztermify SSH session", "terminal:warpify_ssh_session"),
            WarpificationMode::Subshell => ("Ztermify subshell", "terminal:warpify_subshell"),
        };
        self.warpify_label = String::from_str(label);
        self.warpify_binding = Some(String::from_str(binding));
        self.mode = Some(mode);
    }

    /// Returns the current session kind, if set.
    pub fn mode(&self) -> (r: Option<WarpificationMode>)
        ensures
            r == self@.mode,
    {
        self.mode
    }

    /// Clears the session kind and the integration button's key binding.
    pub fn clear_mode(&mut self)
        ensures
            final(self)@ == (FooterView { mode: None, warpify_binding: None, ..old(self)@ }),
    {
        self.mode = None;
        self.warpify_binding = None;
    }

    /// Handles a button press, returning the event to emit.
    pub fn handle_action(&mut self, action: ZtermifyFooterViewAction) -> (r: Option<ZtermifyFooterViewEvent>)
        ensures
            (final(self)@, r) == spec_after_action(old(self)@, action),
    {
        match action {
            ZtermifyFooterViewAction::Ztermify => {
                match self.mode {
                    Some(mode) => {
                        self.clear_mode();
                        Some(ZtermifyFooterViewEvent::Ztermify { mode })
                    },
                    None => None,
                }
            },
            ZtermifyFooterViewAction::UseAgent => {
                self.clear_mode();
                Some(ZtermifyFooterViewEvent::UseAgent)
            },
            ZtermifyFooterViewAction::Dismiss => {
                self.clear_mode();
                Some(ZtermifyFooterViewEvent::Dismiss)
            },
        }
    }
}

/// After any button press the footer holds no session kind, and the
/// integration button reports the kind that was set, if any.
pub proof fn lemma_action_clears_mode(v: FooterView, action: ZtermifyFooterViewAction)
    ensures
        spec_after_action(v, action).0.mode is None,
        action == ZtermifyFooterViewAction::Ztermify ==> (spec_after_action(v, action).1 is Some
            <==> v.mode is Some),
{
}

} // verus!
