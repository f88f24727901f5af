//! One client's connection, seen from its reading side: what each read
//! means for the world.
//!
//! A read is taken as one message, from its first byte. Only the bytes that
//! the read gave are looked at, so nothing that an earlier read left in the
//! buffer can be taken for part of a message; bytes after the message are
//! ignored. Nothing is kept from one read to the next: a message that
//! arrives in two reads is cut, and dropped.

use crate::packet;
use crate::packet::{
    string_field_at, u16_at, PacketReader, CHAT_BODY, IDENTIFICATION_BODY, POSITION_BODY,
    SET_BLOCK_BODY,
};
use crate::world_command::{CommandView, WorldCommand};
use vstd::prelude::*;
use vstd::utf8::*;

verus! {

/// Size of the buffer that one read fills at most.
pub const READ_BUFFER: usize = 512;

/// Opcodes of the client's messages.
pub const OP_IDENTIFICATION: u8 = 0x00;

pub const OP_SET_BLOCK: u8 = 0x05;

pub const OP_POSITION: u8 = 0x08;

pub const OP_CHAT: u8 = 0x0d;

/// What a read on the connection gave.
#[derive(Clone, Debug, PartialEq, Eq)]
pub enum ReadEvent {
    /// The bytes of one read; none where the client closed the connection.
    Data { received: Vec<u8> },
    /// The read failed.
    Failed,
}

/// What follows from a read: a command for the world, if any, and whether
/// to go on reading.
#[derive(Clone, Debug, PartialEq, Eq)]
pub struct ClientStep {
    pub command: Option<WorldCommand>,
    pub open: bool,
}

/// The command, if any, as a value.
pub open spec fn command_view(command: Option<WorldCommand>) -> Option<CommandView> {
    match command {
        Some(c) => Some(c@),
        None => None,
    }
}

/// The command that the message at the start of `received` stands for, sent
/// by the client `player_id`. There is none where the opcode is unknown,
/// where the bytes end before the message does, or where a string field
/// is not UTF-8. The identification's name keeps its padding.
pub open spec fn message_command(player_id: u32, received: Seq<u8>) -> Option<CommandView> {
    if received.len() == 0 {
        None
    } else if received[0] == OP_IDENTIFICATION {
        if received.len() >= 1 + IDENTIFICATION_BODY && valid_utf8(string_field_at(received, 2))
            && valid_utf8(string_field_at(received, 66)) {
            Some(
                CommandView::AddPlayer {
                    player_id,
                    name: decode_utf8(string_field_at(received, 2)),
                },
            )
        } else {
            None
        }
    } else if received[0] == OP_SET_BLOCK {
        if received.len() >= 1 + SET_BLOCK_BODY {
            Some(
                CommandView::SetBlock {
                    x: u16_at(received, 1) as usize,
                    y: u16_at(received, 3) as usize,
                    z: u16_at(received, 5) as usize,
                    value: received[8],
                    mode: received[7],
                },
            )
        } else {
            None
        }
    } else if received[0] == OP_POSITION {
        if received.len() >= 1 + POSITION_BODY {
            Some(
                CommandView::MovePlayer {
                    player_id,
                    x: u16_at(received, 2),
                    y: u16_at(received, 4),
                    z: u16_at(received, 6),
                    yaw: received[8],
                    pitch: received[9],
                },
            )
        } else {
            None
        }
    } else if received[0] == OP_CHAT {
        if received.len() >= 1 + CHAT_BODY && valid_utf8(string_field_at(received, 2)) {
            Some(
                CommandView::PlayerMessage {
                    player_id,
                    message: decode_utf8(string_field_at(received, 2)),
                },
            )
        } else {
            None
        }
    } else {
        None
    }
}

/// What a read means: a closed connection or a failed read removes the
/// player and ends the reading; received bytes are taken as one message.
pub open spec fn client_step(player_id: u32, event: ReadEvent) -> (Option<CommandView>, bool) {
    match event {
        ReadEvent::Failed => (Some(CommandView::RemovePlayer { player_id }), false),
        ReadEvent::Data { received } => if received@.len() == 0 {
            (Some(CommandView::RemovePlayer { player_id }), false)
        } else {
            (message_command(player_id, received@), true)
        },
    }
}

/// Decodes the message at the start of `received` into the command it
/// stands for.
pub fn decode_message(player_id: u32, received: &[u8]) -> (command: Option<WorldCommand>)
    ensures
        command_view(command) == message_command(player_id, received@),
{
    let mut reader = PacketReader { index: 0, buffer: received };
    let packet_id = match reader.read_u8() {
        Ok(id) => id,
        Err(_) => {
            return None;
        },
    };
    if packet_id == OP_IDENTIFICATION {
        match packet::client_player_identification(&mut reader) {
            Ok((_, name, _)) => Some(WorldCommand::AddPlayer { player_id, name }),
            Err(_) => None,
        }
    } else if packet_id == OP_SET_BLOCK {
        match packet::client_set_block(&mut reader) {
            Ok((x, y, z, value, mode)) => Some(
                WorldCommand::SetBlock { x: x as usize, y: y as usize, z: z as usize, value, mode },
            ),
            Err(_) => None,
        }
    } else if packet_id == OP_POSITION {
        match packet::client_position_orientation(&mut reader) {
            Ok((_, x, y, z, yaw, pitch)) => Some(
                WorldCommand::MovePlayer { player_id, x, y, z, yaw, pitch },
            ),
            Err(_) => None,
        }
    } else if packet_id == OP_CHAT {
        match packet::client_chat_message(&mut reader) {
            Ok((_, message)) => Some(WorldCommand::PlayerMessage { player_id, message }),
            Err(_) => None,
        }
    } else {
        None
    }
}

/// Decides what follows from one read on the connection of `player_id`.
pub fn handle_client(player_id: u32, event: ReadEvent) -> (step: ClientStep)
    ensures
        (command_view(step.command), step.open) == client_step(player_id, event),
{
    match event {
        ReadEvent::Failed => ClientStep {
            command: Some(WorldCommand::RemovePlayer { player_id }),
            open: false,
        },
        ReadEvent::Data { received } => {
            if received.len() == 0 {
                ClientStep { command: Some(WorldCommand::RemovePlayer { player_id }), open: false }
            } else {
                ClientStep { command: decode_message(player_id, received.as_slice()), open: true }
            }
        },
    }
}

/// A step ends the reading exactly when it removes the player, and no
/// message stands for a removal: a connection that is read until a step
/// ends the reading removes its player once, with its last step.
pub proof fn lemma_removal_ends_the_reading(player_id: u32, event: ReadEvent)
    ensures
        client_step(player_id, event).1 <==> client_step(player_id, event).0 != Some(
            CommandView::RemovePlayer { player_id },
        ),
        forall|received: Seq<u8>| !(#[trigger] message_command(player_id, received) matches Some(
            CommandView::RemovePlayer { .. },
        )),
{
}

} // verus!
