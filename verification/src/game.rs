//! What the sniffer makes of a packet: game packets, or an error.

use vstd::prelude::*;

verus! {

/// Why a command of the game could not be read.
#[derive(Debug, Clone, Copy, PartialEq, Eq, Structural)]
pub enum GameCommandError {
    /// There is no key for this version of the game.
    DecryptionKeyMissing,
    HeaderTooShort,
    CommandTooShort,
    /// The packet belongs to a session whose key is not known yet.
    VersionMismatch,
}

/// Why a packet was not recognised as one of a connection.
#[derive(Debug, Clone, Copy, PartialEq, Eq, Structural)]
pub enum ConnectionPacketError {
    /// The packet carries no transport layer.
    TransportLayerNotPresent,
    Other,
}

/// Why the data of a connection could not be put together.
#[derive(Debug, Clone, Copy, PartialEq, Eq, Structural)]
pub enum KcpError {
    HeaderTooShort,
    SegmentTooShort,
    ContentLengthExceedsData,
    InvalidSegmentHeader,
    ClientNotConstructed,
    PacketDoesNotBelongToConversation,
    InnerKcpError,
}

/// Why the sniffer made nothing of a packet.
#[derive(Debug, Clone, Copy, PartialEq, Eq, Structural)]
pub enum NetworkError {
    ConnectionPacket(ConnectionPacketError),
    Kcp(KcpError),
    GameCommand(GameCommandError),
}

/// A packet that concerns the connection itself.
#[derive(Debug, Clone, Copy, PartialEq, Eq, Structural)]
pub enum ConnectionPacket {
    HandshakeEstablished { conv_id: u32 },
    Disconnected,
    Other,
}

/// A command of the game.
#[derive(Debug)]
pub struct GameCommand<C> {
    pub command_id: u16,
    /// The account number in the command, where it can be read as a token
    /// response.
    pub token_uid: Option<u32>,
    /// The command as the sniffer delivered it.
    pub body: C,
}

/// What the sniffer makes of a packet.
#[derive(Debug)]
pub enum GamePacket<C> {
    Connection(ConnectionPacket),
    Commands { conv_id: u32, result: Result<GameCommand<C>, GameCommandError> },
}

} // verus!
