//! The decision core of a synchronous actor: a message handler that says
//! after each message whether its mailbox loop goes on. The loop itself,
//! with its channel and its blocking receive, lives outside the library.

use vstd::prelude::*;

verus! {

/// Whether an actor's mailbox loop continues after a message.
#[derive(Debug, Clone, Copy, PartialEq, Eq, Structural)]
pub enum ShutdownState {
    Continue,
    Break,
}

impl ShutdownState {
    /// Whether the mailbox loop stops on this state.
    pub fn should_break(&self) -> (r: bool)
        ensures
            r == (*self is Break),
    {
        match self {
            ShutdownState::Break => true,
            ShutdownState::Continue => false,
        }
    }
}

impl Default for ShutdownState {
    fn default() -> (r: Self)
        ensures
            r == ShutdownState::Continue,
    {
        ShutdownState::Continue
    }
}

/// A handler of actor messages: consumes one message and says whether the
/// loop driving it goes on.
pub trait SyncActorImpl {
    type Message;

    fn handle_message(&mut self, message: Self::Message) -> ShutdownState;
}

} // verus!
