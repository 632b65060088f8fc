//! Modal dialog state.
//!
//! The window chrome and rendering live outside; this module owns the
//! dialog's plain state: whether it is open, what it says, whether it shows
//! a QR code, and which affordance it offers.

use vstd::prelude::*;

verus! {

/// The affordance a dialog offers.
#[derive(Clone, Copy, Debug, PartialEq, Eq, Structural)]
pub enum Action {
    /// No button.
    NoButton,
    /// A button that closes the dialog.
    Close,
    /// A button that retries device linking after a session error.
    RetryLinking,
}

impl Default for Action {
    /// The default affordance is no button.
    fn default() -> (a: Self)
        ensures
            a == Action::NoButton,
    {
        Action::NoButton
    }
}

/// A modal dialog: its text, its optional QR code, and its affordance.
#[derive(Debug)]
pub struct Dialog {
    /// Whether the dialog is shown.
    pub is_open: bool,
    /// Title line.
    pub title: String,
    /// Body text.
    pub content: String,
    /// Whether a QR code (the linking URL) is shown below the text.
    pub has_qr_code: bool,
    /// The affordance offered.
    pub action: Action,
    /// Whether the body text is rendered in a monospace face.
    pub monospace: bool,
}

impl Dialog {
    /// Creates an open dialog with the given text, QR code and affordance.
    pub fn new(title: String, content: String, has_qr_code: bool, action: Action) -> (d: Self)
        ensures
            d.is_open,
            d.title@ == title@,
            d.content@ == content@,
            d.has_qr_code == has_qr_code,
            d.action == action,
            !d.monospace,
    {
        Dialog { is_open: true, title, content, has_qr_code, action, monospace: false }
    }

    /// Renders the body text in a monospace face.
    pub fn monospace(self) -> (d: Self)
        ensures
            d == (Dialog { monospace: true, ..self }),
    {
        Dialog { monospace: true, ..self }
    }

    /// Closes the dialog.
    pub fn close(&mut self)
        ensures
            !final(self).is_open,
            final(self).title == old(self).title,
            final(self).content == old(self).content,
            final(self).has_qr_code == old(self).has_qr_code,
            final(self).action == old(self).action,
            final(self).monospace == old(self).monospace,
    {
        self.is_open = false;
    }
}

} // verus!
