//! The desktop portal: the token that restores a permission, and the dialogs that are
//! confirmed by a virtual Enter key.
use vstd::prelude::*;

verus! {

/// The restore token of one capture. Every capture has its own, so that two clients do not
/// take each other's.
pub struct PortalToken {
    token: Option<String>,
}

impl View for PortalToken {
    type V = Option<Seq<char>>;

    closed spec fn view(&self) -> Option<Seq<char>> {
        match self.token {
            Some(s) => Some(s@),
            None => None,
        }
    }
}

impl PortalToken {
    /// Starts with the token that was kept on disk, where there is one.
    pub fn new(token: Option<String>) -> (t: PortalToken)
        ensures
            t@ == (match token {
                Some(s) => Some(s@),
                None => None,
            }),
    {
        PortalToken { token }
    }
}

/// The token of a capture.
pub fn get_portal_token(state: &PortalToken) -> (r: Option<String>)
    ensures
        (match r {
            Some(s) => Some(s@),
            None => None,
        }) == state@,
{
    match &state.token {
        Some(s) => Some(s.clone()),
        None => None,
    }
}

/// Sets the token of a capture.
pub fn set_portal_token(state: &mut PortalToken, token: String)
    ensures
        final(state)@ == Some(token@),
{
    state.token = Some(token);
}

// ----- dialogs

/// How long a dialog has to appear before Enter is pressed, in milliseconds.
pub const APPEAR_MS: u64 = 300;

/// How long Enter is held.
pub const HOLD_MS: u64 = 50;

/// How long to wait before Enter is pressed again.
pub const PAUSE_MS: u64 = 100;

/// How long a dialog may take altogether.
pub const LIMIT_MS: u64 = 30000;

/// Where the confirmation of a dialog stands.
#[derive(Debug, Clone, Copy, PartialEq, Eq, Structural)]
pub enum DialogState {
    /// There is no keyboard: the user has to confirm.
    Manual,
    /// The dialog has time to appear.
    Appearing,
    /// Enter is down.
    Holding,
    /// Enter is up again.
    Pausing,
}

/// What can happen meanwhile.
#[derive(Debug, Clone, Copy, PartialEq, Eq, Structural)]
pub enum DialogSignal {
    /// The portal call returned.
    Completed,
    /// The time of the current state is over.
    Elapsed,
    /// The time of the whole dialog is over.
    Expired,
}

/// What to do.
#[derive(Debug, Clone, Copy, PartialEq, Eq, Structural)]
pub enum DialogAction {
    /// Hand on what the portal call returned.
    Return,
    PressEnter,
    ReleaseEnter,
    /// Nothing: the signal does not count in this state.
    Wait,
    /// Fail: nobody confirmed the dialog in time.
    GiveUp,
    /// Leave the program: the user did not confirm in time.
    Exit,
}

/// What a signal leads to: the next state, and what to do.
pub open spec fn dialog_step(state: DialogState, signal: DialogSignal) -> (
    DialogState,
    DialogAction,
) {
    match (state, signal) {
        (DialogState::Manual, DialogSignal::Completed) => (
            DialogState::Manual,
            DialogAction::Return,
        ),
        (DialogState::Manual, _) => (DialogState::Manual, DialogAction::Exit),
        (DialogState::Appearing, DialogSignal::Completed) => (
            DialogState::Appearing,
            DialogAction::Return,
        ),
        (DialogState::Appearing, DialogSignal::Elapsed) => (
            DialogState::Holding,
            DialogAction::PressEnter,
        ),
        (DialogState::Appearing, DialogSignal::Expired) => (
            DialogState::Appearing,
            DialogAction::Wait,
        ),
        (DialogState::Holding, DialogSignal::Completed) => (
            DialogState::Holding,
            DialogAction::Wait,
        ),
        (DialogState::Holding, DialogSignal::Elapsed) => (
            DialogState::Pausing,
            DialogAction::ReleaseEnter,
        ),
        (DialogState::Holding, DialogSignal::Expired) => (
            DialogState::Holding,
            DialogAction::GiveUp,
        ),
        (DialogState::Pausing, DialogSignal::Completed) => (
            DialogState::Pausing,
            DialogAction::Return,
        ),
        (DialogState::Pausing, DialogSignal::Elapsed) => (
            DialogState::Holding,
            DialogAction::PressEnter,
        ),
        (DialogState::Pausing, DialogSignal::Expired) => (
            DialogState::Pausing,
            DialogAction::GiveUp,
        ),
    }
}

impl DialogState {
    /// The first state, with or without a keyboard.
    pub fn start(has_keyboard: bool) -> (s: DialogState)
        ensures
            s == (if has_keyboard {
                DialogState::Appearing
            } else {
                DialogState::Manual
            }),
            s is Appearing <==> has_keyboard,
            s is Manual <==> !has_keyboard,
    {
        if has_keyboard {
            DialogState::Appearing
        } else {
            DialogState::Manual
        }
    }

    /// How long the state lasts, in milliseconds.
    pub fn duration(self) -> (ms: u64)
        ensures
            ms == (match self {
                DialogState::Manual => LIMIT_MS,
                DialogState::Appearing => APPEAR_MS,
                DialogState::Holding => HOLD_MS,
                DialogState::Pausing => PAUSE_MS,
            }),
            self is Manual ==> ms == 30000,
            self is Appearing ==> ms == 300,
            self is Holding ==> ms == 50,
            self is Pausing ==> ms == 100,
    {
        match self {
            DialogState::Manual => LIMIT_MS,
            DialogState::Appearing => APPEAR_MS,
            DialogState::Holding => HOLD_MS,
            DialogState::Pausing => PAUSE_MS,
        }
    }

    /// Whether the limit of the whole dialog runs: it does from the first press on.
    pub fn limit_runs(self) -> (r: bool)
        ensures
            r == (self is Holding || self is Pausing),
    {
        match self {
            DialogState::Holding => true,
            DialogState::Pausing => true,
            _ => false,
        }
    }

    /// Takes note of a signal and says what to do. The limit of the whole dialog runs from
    /// the first press on; while Enter is held the portal is not asked.
    pub fn step(&mut self, signal: DialogSignal) -> (action: DialogAction)
        ensures
            (*final(self), action) == dialog_step(*old(self), signal),
    {
        match *self {
            DialogState::Manual => match signal {
                DialogSignal::Completed => DialogAction::Return,
                _ => DialogAction::Exit,
            },
            DialogState::Appearing => match signal {
                DialogSignal::Completed => DialogAction::Return,
                DialogSignal::Elapsed => {
                    *self = DialogState::Holding;
                    DialogAction::PressEnter
                },
                DialogSignal::Expired => DialogAction::Wait,
            },
            DialogState::Holding => match signal {
                DialogSignal::Completed => DialogAction::Wait,
                DialogSignal::Elapsed => {
                    *self = DialogState::Pausing;
                    DialogAction::ReleaseEnter
                },
                DialogSignal::Expired => DialogAction::GiveUp,
            },
            DialogState::Pausing => match signal {
                DialogSignal::Completed => DialogAction::Return,
                DialogSignal::Elapsed => {
                    *self = DialogState::Holding;
                    DialogAction::PressEnter
                },
                DialogSignal::Expired => DialogAction::GiveUp,
            },
        }
    }

    /// Takes note of a signal where the dialog may take any time, and says what to do: Enter is
    /// pressed again and again until the portal call returns, and without a keyboard the user
    /// is waited for.
    pub fn step_without_limit(&mut self, signal: DialogSignal) -> (action: DialogAction)
        ensures
            (*final(self), action) == (if signal == DialogSignal::Expired || (*old(self)
                == DialogState::Manual && signal == DialogSignal::Elapsed) {
                (*old(self), DialogAction::Wait)
            } else {
                dialog_step(*old(self), signal)
            }),
    {
        match signal {
            DialogSignal::Expired => DialogAction::Wait,
            DialogSignal::Elapsed => match *self {
                DialogState::Manual => DialogAction::Wait,
                _ => self.step(signal),
            },
            DialogSignal::Completed => self.step(signal),
        }
    }
}

/// What is done in a dialog, and when: Enter goes down when the time has passed and it is up, and
/// up when the time has passed and it is down; the dialog returns where it is completed while
/// Enter is up; it gives up where the limit has passed after Enter was pressed; and without a
/// keyboard it exits where it was not completed.
pub proof fn dialogs_are_confirmed_with_enter(state: DialogState, signal: DialogSignal)
    ensures
        ({
            let action = dialog_step(state, signal).1;
            &&& action == DialogAction::PressEnter <==> signal is Elapsed && (state is Appearing
                || state is Pausing)
            &&& action == DialogAction::ReleaseEnter <==> signal is Elapsed && state is Holding
            &&& action == DialogAction::Return <==> signal is Completed && state !is Holding
            &&& action == DialogAction::GiveUp <==> signal is Expired && (state is Holding || state
                is Pausing)
            &&& action == DialogAction::Exit <==> state is Manual && signal !is Completed
            &&& action == DialogAction::Wait <==> (state is Holding && signal is Completed) || (
            state is Appearing && signal is Expired)
        }),
{
}

/// Enter is down exactly while the dialog holds it: a press leads to holding, a release to a
/// pause, and nothing else changes where a dialog stands.
pub proof fn enter_goes_down_and_up(state: DialogState, signal: DialogSignal)
    ensures
        ({
            let (next, action) = dialog_step(state, signal);
            &&& action == DialogAction::PressEnter ==> next is Holding && state !is Holding
            &&& action == DialogAction::ReleaseEnter ==> next is Pausing && state is Holding
            &&& action != DialogAction::PressEnter && action != DialogAction::ReleaseEnter ==> next
                == state
        }),
{
}

} // verus!
