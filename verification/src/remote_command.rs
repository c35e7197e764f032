//! Classification of the buffers that arrive over the link.
//!
//! The first two bytes of a buffer are a stamp that belongs to the transport.
//! The third byte selects the command: a MIDI status for MIDI traffic, or one
//! of the configuration selectors.

use vstd::prelude::*;

verus! {

pub const MIDI_NOTE_ON_BYTE: u8 = 0x90;

pub const MIDI_NOTE_OFF_BYTE: u8 = 0x80;

pub const READ_SYSTEM_CONSTANTS_COMMAND_BYTE: u8 = 0x00;

pub const READ_CONFIG_COMMAND_BYTE: u8 = 0x01;

pub const WRITE_CONFIG_COMMAND_BYTE: u8 = 0x02;

/// Represents a general command received from the remote
#[derive(Debug)]
pub enum Command {
    /// MIDI traffic; carries the whole buffer.
    MIDI(Vec<u8>),
    /// A request for the calibration table; carries the whole buffer.
    ReadSystemConstants(Vec<u8>),
    /// A request for the current configuration; carries the whole buffer.
    ReadConfiguration(Vec<u8>),
    /// A configuration document to apply; carries the bytes after the
    /// selector.
    WriteConfiguration(Vec<u8>),
}

/// Why a buffer is no command.
#[derive(Debug, Clone, Copy, PartialEq, Eq, Structural)]
pub enum CommandError {
    /// The buffer has fewer than three bytes.
    TooShort,
    /// The selector byte is none of the known ones.
    UnknownCommand,
}

/// A command, with its payload as a sequence of bytes.
pub ghost enum CommandView {
    MIDI(Seq<u8>),
    ReadSystemConstants(Seq<u8>),
    ReadConfiguration(Seq<u8>),
    WriteConfiguration(Seq<u8>),
}

impl View for Command {
    type V = CommandView;

    open spec fn view(&self) -> CommandView {
        match self {
            Command::MIDI(payload) => CommandView::MIDI(payload@),
            Command::ReadSystemConstants(payload) => CommandView::ReadSystemConstants(payload@),
            Command::ReadConfiguration(payload) => CommandView::ReadConfiguration(payload@),
            Command::WriteConfiguration(payload) => CommandView::WriteConfiguration(payload@),
        }
    }
}

impl Clone for Command {
    fn clone(&self) -> (r: Self)
        ensures
            r@ == self@,
    {
        match self {
            Command::MIDI(payload) => Command::MIDI(payload.clone()),
            Command::ReadSystemConstants(payload) => Command::ReadSystemConstants(payload.clone()),
            Command::ReadConfiguration(payload) => Command::ReadConfiguration(payload.clone()),
            Command::WriteConfiguration(payload) => Command::WriteConfiguration(payload.clone()),
        }
    }
}

/// The command that a buffer carries, or the reason why it carries none.
pub open spec fn classify(message: Seq<u8>) -> Result<CommandView, CommandError> {
    if message.len() < 3 {
        Err(CommandError::TooShort)
    } else if message[2] == MIDI_NOTE_ON_BYTE || message[2] == MIDI_NOTE_OFF_BYTE {
        Ok(CommandView::MIDI(message))
    } else if message[2] == READ_SYSTEM_CONSTANTS_COMMAND_BYTE {
        Ok(CommandView::ReadSystemConstants(message))
    } else if message[2] == READ_CONFIG_COMMAND_BYTE {
        Ok(CommandView::ReadConfiguration(message))
    } else if message[2] == WRITE_CONFIG_COMMAND_BYTE {
        Ok(CommandView::WriteConfiguration(message.skip(3)))
    } else {
        Err(CommandError::UnknownCommand)
    }
}

/// Copies the bytes of `message` from index `from` on.
fn tail_of(message: &Vec<u8>, from: usize) -> (r: Vec<u8>)
    requires
        from <= message.len(),
    ensures
        r@ == message@.skip(from as int),
{
    let mut tail: Vec<u8> = Vec::new();
    let mut i: usize = from;
    while i < message.len()
        invariant
            from <= i <= message.len(),
            tail@ == message@.subrange(from as int, i as int),
        decreases message.len() - i,
    {
        tail.push(message[i]);
        i += 1;
    }
    tail
}

impl Command {
    /// Classifies a buffer by its third byte.
    pub fn try_from(message: &Vec<u8>) -> (r: Result<Command, CommandError>)
        ensures
            match classify(message@) {
                Ok(command) => r is Ok && r->Ok_0@ == command,
                Err(e) => r is Err && r->Err_0 == e,
            },
    {
        if message.len() < 3 {
            return Err(CommandError::TooShort);
        }
        let selector: u8 = message[2];
        if selector == MIDI_NOTE_ON_BYTE || selector == MIDI_NOTE_OFF_BYTE {
            Ok(Command::MIDI(message.clone()))
        } else if selector == READ_SYSTEM_CONSTANTS_COMMAND_BYTE {
            Ok(Command::ReadSystemConstants(message.clone()))
        } else if selector == READ_CONFIG_COMMAND_BYTE {
            Ok(Command::ReadConfiguration(message.clone()))
        } else if selector == WRITE_CONFIG_COMMAND_BYTE {
            Ok(Command::WriteConfiguration(tail_of(message, 3)))
        } else {
            Err(CommandError::UnknownCommand)
        }
    }
}

} // verus!
