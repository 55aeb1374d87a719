//! What travels between producers, the worker and the transfer engine.

use vstd::prelude::*;

verus! {

/// A control message from a producer to the worker.
///
/// A transfer is named by an identifier of the caller's choosing; the worker
/// hands it back with every action that concerns the transfer.
#[derive(Clone, Copy, Debug, PartialEq, Eq, Structural)]
pub enum Message {
    /// Stop the transfer that holds this token.
    Cancel(usize),
    /// Stop the worker once no transfer is active.
    Close,
    /// Start the transfer with this identifier.
    BeginRequest(u64),
    /// Resume the paused write stream of the transfer that holds this token.
    UnpauseWrite(usize),
}

/// What the worker asks of the transfer engine after a message.
#[derive(Clone, Copy, Debug, PartialEq, Eq, Structural)]
pub enum Action {
    /// Nothing is to be done.
    Nothing,
    /// Register the transfer and bind the token to it on both sides.
    Register { token: usize, transfer: u64 },
    /// Detach the transfer from the engine and release it. Its handler
    /// is told nothing.
    Abort { token: usize, transfer: u64 },
    /// Resume the transfer's paused write stream.
    ResumeWrite { token: usize, transfer: u64 },
    /// A resume named a token that holds no transfer: nothing is done, but
    /// the token is worth a warning in the log.
    UnknownResume { token: usize },
}

/// One transfer that the engine reports as finished: its token, and either
/// success or the engine's error code.
#[derive(Clone, Copy, Debug, PartialEq, Eq, Structural)]
pub struct Completion {
    pub token: usize,
    pub failure: Option<u32>,
}

/// What becomes of a finished transfer: it is detached from the engine and
/// exactly one callback of its handler fires.
#[derive(Clone, Copy, Debug, PartialEq, Eq, Structural)]
pub enum Resolution {
    /// The handler's completion callback fires.
    Complete { token: usize, transfer: u64 },
    /// The handler's failure callback fires with the engine's error code.
    Fail { token: usize, transfer: u64, code: u32 },
}

/// How the worker waits for its next message.
#[derive(Clone, Copy, Debug, PartialEq, Eq, Structural)]
pub enum PollMode {
    /// Sleep until a message arrives or every sender is gone.
    Blocking,
    /// Take a message only if one is already queued.
    NonBlocking,
}

/// What the worker's loop did last.
#[derive(Clone, Copy, Debug, PartialEq, Eq, Structural)]
pub enum Stage {
    /// A turn of the loop starts: the worker was created, or has served the
    /// engine.
    TurnStart,
    /// The worker waited for a message; `more` says whether one came.
    Polled { more: bool },
}

/// What the worker's loop does next.
#[derive(Clone, Copy, Debug, PartialEq, Eq, Structural)]
pub enum Task {
    /// Wait for a message in this mode and apply what comes.
    Poll(PollMode),
    /// Wait for the engine or a wake-up, no longer than the bounded timeout,
    /// drain the wake-ups, let the engine progress and resolve what finished.
    Serve,
    /// Shut the engine down and end.
    Shutdown,
}

/// Where the worker stands in its life.
#[derive(Clone, Copy, Debug, PartialEq, Eq, Structural)]
pub enum Phase {
    /// No close was seen.
    Running,
    /// A close was seen and transfers are still active.
    CloseRequested,
    /// A close was seen and no transfer is active: the loop ends.
    Terminated,
}

/// The failures that a caller can be handed.
#[derive(Clone, Copy, Debug, PartialEq, Eq, Structural)]
pub enum Error {
    /// The worker has terminated, or its loop met an engine error it cannot
    /// recover from.
    Internal,
}

} // verus!
