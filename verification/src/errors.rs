//! The errors of sending.

use vstd::prelude::*;
use vstd::string::*;

verus! {

/// Why a message could not be sent.
#[derive(Clone, Copy, Debug, PartialEq, Eq, Structural)]
pub enum SendError {
    /// The mailbox of the receiver is full.
    FullMailbox,
    /// The mailbox of the receiver is gone.
    Disconnected,
    /// There is nobody to receive the message.
    NotFound,
    /// Anything else.
    Other,
}

impl SendError {
    /// The error for a send that failed: the mailbox was full, or it was
    /// gone, or, where neither is known, something else went wrong.
    pub fn of(is_full: bool, is_disconnected: bool) -> (e: SendError)
        ensures
            e == if is_full {
                SendError::FullMailbox
            } else if is_disconnected {
                SendError::Disconnected
            } else {
                SendError::Other
            },
    {
        if is_full {
            SendError::FullMailbox
        } else if is_disconnected {
            SendError::Disconnected
        } else {
            SendError::Other
        }
    }

    /// The error as `{}` would print it.
    pub open spec fn text(&self) -> Seq<char> {
        match *self {
            SendError::FullMailbox => "The mailbox is full"@,
            SendError::Disconnected => "The mailbox is disconnected"@,
            SendError::NotFound => "No recipient was found"@,
            SendError::Other => "The message could not be sent"@,
        }
    }

    /// Says why the message could not be sent.
    pub fn to_string(&self) -> (s: String)
        ensures
            s@ == self.text(),
    {
        let text = match self {
            SendError::FullMailbox => "The mailbox is full",
            SendError::Disconnected => "The mailbox is disconnected",
            SendError::NotFound => "No recipient was found",
            SendError::Other => "The message could not be sent",
        };
        String::from_str(text)
    }
}

} // verus!
