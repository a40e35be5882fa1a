//! Application-shell state: the drive list shown in the dropdown, the
//! current selection, and the state machine that guards window close
//! behind a confirmation dialog.
//!
//! The shell decides; the window toolkit acts. Each user event is handed
//! in as a plain value and the shell answers with the action the toolkit
//! must perform, so the close must be intercepted and deferred, never
//! vetoed silently.

use vstd::prelude::*;
use crate::drives::DriveSet;
use crate::drives::GetLogicalDrivesError;
use crate::drives::format_drive_label;
use crate::drives::label_of;

verus! {

/// Where the shell stands with respect to closing the window.
#[derive(Clone, Copy, Debug, PartialEq, Eq, Structural)]
pub enum CloseState {
    /// The window is open and no confirmation dialog is showing.
    Open,
    /// A close was requested and the confirmation dialog is showing.
    ConfirmPending,
    /// The user confirmed; the close command has been issued. Terminal.
    ClosingAllowed,
}

/// A user event that bears on closing the window.
#[derive(Clone, Copy, Debug, PartialEq, Eq, Structural)]
pub enum CloseEvent {
    /// The native window close was requested.
    CloseRequested,
    /// The user answered "No" in the confirmation dialog.
    DialogNo,
    /// The user answered "Yes" in the confirmation dialog.
    DialogYes,
}

/// What the window toolkit must do in response to a close event.
#[derive(Clone, Copy, Debug, PartialEq, Eq, Structural)]
pub enum CloseAction {
    /// Nothing: either let a pending native close proceed, or stay put.
    NoAction,
    /// Cancel the native close and show the confirmation dialog.
    CancelAndConfirm,
    /// Issue the actual close command.
    IssueClose,
}

/// The close-state machine. A close request while open (or while the
/// dialog is already showing) cancels the native close and asks for
/// confirmation; "No" returns to the open state; "Yes" issues the close.
/// The closing-allowed state is terminal, and dialog answers without a
/// showing dialog change nothing.
pub open spec fn close_step_spec(s: CloseState, e: CloseEvent) -> (CloseState, CloseAction) {
    match (s, e) {
        (CloseState::Open, CloseEvent::CloseRequested) => (
            CloseState::ConfirmPending,
            CloseAction::CancelAndConfirm,
        ),
        (CloseState::Open, _) => (CloseState::Open, CloseAction::NoAction),
        (CloseState::ConfirmPending, CloseEvent::CloseRequested) => (
            CloseState::ConfirmPending,
            CloseAction::CancelAndConfirm,
        ),
        (CloseState::ConfirmPending, CloseEvent::DialogNo) => (
            CloseState::Open,
            CloseAction::NoAction,
        ),
        (CloseState::ConfirmPending, CloseEvent::DialogYes) => (
            CloseState::ClosingAllowed,
            CloseAction::IssueClose,
        ),
        (CloseState::ClosingAllowed, _) => (CloseState::ClosingAllowed, CloseAction::NoAction),
    }
}

impl CloseState {
    /// Take one step of the close-state machine.
    pub fn step(self, e: CloseEvent) -> (r: (CloseState, CloseAction))
        ensures
            r == close_step_spec(self, e),
    {
        match (self, e) {
            (CloseState::Open, CloseEvent::CloseRequested) => (
                CloseState::ConfirmPending,
                CloseAction::CancelAndConfirm,
            ),
            (CloseState::Open, _) => (CloseState::Open, CloseAction::NoAction),
            (CloseState::ConfirmPending, CloseEvent::CloseRequested) => (
                CloseState::ConfirmPending,
                CloseAction::CancelAndConfirm,
            ),
            (CloseState::ConfirmPending, CloseEvent::DialogNo) => (
                CloseState::Open,
                CloseAction::NoAction,
            ),
            (CloseState::ConfirmPending, CloseEvent::DialogYes) => (
                CloseState::ClosingAllowed,
                CloseAction::IssueClose,
            ),
            (CloseState::ClosingAllowed, _) => (
                CloseState::ClosingAllowed,
                CloseAction::NoAction,
            ),
        }
    }
}

/// The close command is issued exactly when the user answers "Yes" to the
/// confirmation dialog, and once the machine allows closing it never
/// leaves that state. In particular, from the open state a close request
/// answered "No" returns to the open state with no close issued, while a
/// close request answered "Yes" reaches the closing-allowed state and only
/// that second step issues the close.
pub proof fn lemma_close_confirmation()
    ensures
        forall|s: CloseState, e: CloseEvent|
            #[trigger] close_step_spec(s, e).1 == CloseAction::IssueClose
                <==> s == CloseState::ConfirmPending && e == CloseEvent::DialogYes,
        forall|e: CloseEvent|
            #[trigger] close_step_spec(CloseState::ClosingAllowed, e)
                == (CloseState::ClosingAllowed, CloseAction::NoAction),
        close_step_spec(CloseState::Open, CloseEvent::CloseRequested).0
            == CloseState::ConfirmPending,
        close_step_spec(CloseState::ConfirmPending, CloseEvent::DialogNo)
            == (CloseState::Open, CloseAction::NoAction),
        close_step_spec(CloseState::ConfirmPending, CloseEvent::DialogYes)
            == (CloseState::ClosingAllowed, CloseAction::IssueClose),
{
}

/// Whether `out` is exactly the formatted label list for `res`: one label
/// per letter, in the set's order, on success, and empty on error.
pub open spec fn labels_match(
    out: Seq<String>,
    res: Result<DriveSet, GetLogicalDrivesError>,
) -> bool {
    match res {
        Ok(ds) => out.len() == ds.seq().len() && (forall|k: int|
            0 <= k < out.len() ==> #[trigger] out[k]@ == label_of(ds.seq()[k])),
        Err(_) => out.len() == 0,
    }
}

/// The application shell's state: the enumeration result obtained at
/// startup, the label list derived from it, the current selection, and
/// the close-state machine.
pub struct MyApp {
    pub close_state: CloseState,
    pub drives: Result<DriveSet, GetLogicalDrivesError>,
    pub drive_letters: Vec<String>,
    pub selected_drive: Option<String>,
}

impl MyApp {
    /// Build the shell from the startup enumeration result: the window is
    /// open, no drive is selected, and the dropdown's labels are derived
    /// from the result (empty on error, so the shell degrades instead of
    /// failing).
    pub fn new(drives: Result<DriveSet, GetLogicalDrivesError>) -> (app: MyApp)
        requires
            drives matches Ok(ds) ==> ds.wf(),
        ensures
            app.close_state == CloseState::Open,
            app.drives == drives,
            labels_match(app.drive_letters@, app.drives),
            app.selected_drive is None,
    {
        let drive_letters = MyApp::convert_drives_to_drive_letters(&drives);
        MyApp {
            close_state: CloseState::Open,
            drives,
            drive_letters,
            selected_drive: None,
        }
    }

    /// The dropdown's label list for an enumeration result: one label per
    /// drive letter, in the set's order; empty on error.
    pub fn convert_drives_to_drive_letters(
        res: &Result<DriveSet, GetLogicalDrivesError>,
    ) -> (out: Vec<String>)
        requires
            *res matches Ok(ds) ==> ds.wf(),
        ensures
            labels_match(out@, *res),
    {
        let mut out: Vec<String> = Vec::new();
        match res {
            Err(_) => out,
            Ok(ds) => {
                let n = ds.len();
                let mut k: usize = 0;
                while k < n
                    invariant
                        *res matches Ok(d) && d == ds,
                        ds.wf(),
                        n == ds.seq().len(),
                        k <= n,
                        out@.len() == k,
                        forall|j: int| 0 <= j < k ==> #[trigger] out@[j]@ == label_of(ds.seq()[j]),
                    decreases n - k,
                {
                    out.push(format_drive_label(ds.letter_at(k)));
                    k += 1;
                }
                out
            },
        }
    }

    /// Feed one close-related event to the shell: the close-state machine
    /// advances one step and nothing else changes; the returned action is
    /// what the toolkit must perform.
    pub fn handle_close_event(&mut self, e: CloseEvent) -> (a: CloseAction)
        ensures
            final(self).close_state == close_step_spec(old(self).close_state, e).0,
            a == close_step_spec(old(self).close_state, e).1,
            final(self).drives == old(self).drives,
            final(self).drive_letters == old(self).drive_letters,
            final(self).selected_drive == old(self).selected_drive,
    {
        let (next, action) = self.close_state.step(e);
        self.close_state = next;
        action
    }

    /// Record the label the user picked in the dropdown; nothing else
    /// changes.
    pub fn select_drive(&mut self, label: String)
        ensures
            final(self).selected_drive matches Some(l) && l == label,
            final(self).close_state == old(self).close_state,
            final(self).drives == old(self).drives,
            final(self).drive_letters == old(self).drive_letters,
    {
        self.selected_drive = Some(label);
    }
}

} // verus!
