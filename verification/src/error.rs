//! The errors that occur within a channel.

use vstd::prelude::*;

verus! {

/// What went wrong. `F` is the failure of the key agreement or the vault in use.
#[derive(Debug, PartialEq, Eq)]
pub enum ChannelErrorKind<F> {
    /// A message cannot be sent on.
    CantSend,
    /// A parameter, by its position, is not acceptable.
    InvalidParam(usize),
    /// A received message cannot be read.
    RecvError,
    /// The key agreement failed.
    KeyAgreement(F),
    /// The vault failed to encrypt or decrypt.
    Cipher(F),
    /// The channel is in no state to do this.
    State,
}

/// An error of the channel manager.
#[derive(Debug, PartialEq, Eq)]
pub struct ChannelError<F> {
    pub kind: ChannelErrorKind<F>,
}

impl<F> ChannelError<F> {
    /// The error of the given kind.
    pub fn of(kind: ChannelErrorKind<F>) -> (error: Self)
        ensures
            error == (ChannelError { kind }),
    {
        ChannelError { kind }
    }
}

} // verus!
