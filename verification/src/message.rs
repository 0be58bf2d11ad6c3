//! Messages exchanged between processes and the activity state of a process.
use vstd::prelude::*;

verus! {

/// Whether a process is doing work (and may send computation messages) or
/// waits for work.
#[derive(Clone, Copy, Debug, PartialEq, Eq, Structural)]
pub enum ProcessState {
    Active,
    Idle,
}

/// A message of the protocol.  Both kinds carry weight.
#[derive(Clone, Copy, Debug, PartialEq, Eq, Structural)]
pub enum Message {
    /// Work handed to another process together with part of the sender's weight.
    Computation { sender_id: usize, weight: u64 },
    /// Weight returned to the controlling agent by a process that went idle.
    Control { sender_id: usize, weight: u64 },
}

impl Message {
    /// The weight a message carries.
    pub open spec fn weight_spec(self) -> nat {
        match self {
            Message::Computation { weight, .. } => weight as nat,
            Message::Control { weight, .. } => weight as nat,
        }
    }

    /// The weight a message carries.
    pub fn weight(&self) -> (w: u64)
        ensures
            w == self.weight_spec(),
    {
        match self {
            Message::Computation { weight, .. } => *weight,
            Message::Control { weight, .. } => *weight,
        }
    }

    /// The id of the process that sent the message.
    pub fn sender_id(&self) -> (id: usize)
        ensures
            id == (match *self {
                Message::Computation { sender_id, .. } => sender_id,
                Message::Control { sender_id, .. } => sender_id,
            }),
    {
        match self {
            Message::Computation { sender_id, .. } => *sender_id,
            Message::Control { sender_id, .. } => *sender_id,
        }
    }
}

/// A message together with the id of the process it is addressed to.
pub type Envelope = (usize, Message);

/// What a process learns from its incoming channel in one round.
#[derive(Clone, Copy, Debug, PartialEq, Eq, Structural)]
pub enum Event {
    /// A message arrived.
    Received(Message),
    /// Nothing arrived within the waiting time.
    Timeout,
    /// Every sender to the process has gone away.
    Disconnected,
}

} // verus!
