//! The pool's side of its link to a validator node: what each message from
//! the node calls for.

use vstd::prelude::*;

verus! {

/// A message from the validator node, as far as the pool reads it.
pub enum PeerEvent {
    /// The node asks the pool to prove itself: its protocol version, and
    /// whether it is a beacon or a validator.
    ChallengeRequest { version: u32, beacon_or_validator: bool },
    /// The node's answer to the pool's challenge: whether its block header
    /// could be read, and whether it is the pool's genesis header.
    ChallengeResponse { header_read: bool, same_genesis: bool },
    Ping,
    Pong,
    /// A new puzzle: whether its block could be read.
    PuzzleResponse { block_read: bool },
    Disconnect,
    /// Any other message.
    Other,
}

/// What the pool does next on the link.
#[derive(PartialEq, Eq, Structural, Clone, Copy, Debug)]
pub enum PeerAction {
    /// Answer the challenge with the genesis header.
    SendChallengeResponse,
    /// Greet the node with a ping.
    SendPing,
    /// Answer a ping.
    SendPong,
    /// The link is up: note it and ask for a puzzle.
    RequestPuzzle,
    /// Hand the new epoch challenge to the server.
    ForwardPuzzle,
    /// Drop the link, wait, and connect again.
    Reconnect,
    /// Nothing to do.
    Ignore,
}

/// What a message from the node calls for, given the protocol version the
/// pool speaks: a challenge from an older node or from one that is neither
/// beacon nor validator, an unreadable or foreign genesis header, an
/// unreadable block, or a disconnect end the link; the handshake goes
/// challenge, response, ping, pong; a puzzle is handed on.
pub fn validator_step(event: &PeerEvent, our_version: u32) -> (action: PeerAction)
    ensures
        action == match *event {
            PeerEvent::ChallengeRequest { version, beacon_or_validator } => if version
                < our_version || !beacon_or_validator {
                PeerAction::Reconnect
            } else {
                PeerAction::SendChallengeResponse
            },
            PeerEvent::ChallengeResponse { header_read, same_genesis } => if header_read
                && same_genesis {
                PeerAction::SendPing
            } else {
                PeerAction::Reconnect
            },
            PeerEvent::Ping => PeerAction::SendPong,
            PeerEvent::Pong => PeerAction::RequestPuzzle,
            PeerEvent::PuzzleResponse { block_read } => if block_read {
                PeerAction::ForwardPuzzle
            } else {
                PeerAction::Reconnect
            },
            PeerEvent::Disconnect => PeerAction::Reconnect,
            PeerEvent::Other => PeerAction::Ignore,
        },
{
    match event {
        PeerEvent::ChallengeRequest { version, beacon_or_validator } => {
            if *version < our_version {
                return PeerAction::Reconnect;
            }
            if !*beacon_or_validator {
                return PeerAction::Reconnect;
            }
            PeerAction::SendChallengeResponse
        },
        PeerEvent::ChallengeResponse { header_read, same_genesis } => {
            if !*header_read {
                return PeerAction::Reconnect;
            }
            if *same_genesis {
                PeerAction::SendPing
            } else {
                PeerAction::Reconnect
            }
        },
        PeerEvent::Ping => PeerAction::SendPong,
        PeerEvent::Pong => PeerAction::RequestPuzzle,
        PeerEvent::PuzzleResponse { block_read } => {
            if *block_read {
                PeerAction::ForwardPuzzle
            } else {
                PeerAction::Reconnect
            }
        },
        PeerEvent::Disconnect => PeerAction::Reconnect,
        PeerEvent::Other => PeerAction::Ignore,
    }
}

} // verus!
