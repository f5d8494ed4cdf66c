//! Commands of the key-value state machine and their encoding in log entries.

use vstd::prelude::*;
use crate::wire::{
    bincode_deserialize, bincode_deserialized, bincode_serialize, bincode_serialized, WireView,
};

verus! {

/// A write to the key-value store.
#[derive(Clone, Debug)]
pub enum Command {
    Put { key: String, value: String },
    Del { key: String },
}

/// The mathematical meaning of a command.
pub enum CommandView {
    Put { key: Seq<char>, value: Seq<char> },
    Del { key: Seq<char> },
}

impl View for Command {
    type V = CommandView;

    open spec fn view(&self) -> CommandView {
        match self {
            Command::Put { key, value } => CommandView::Put { key: key@, value: value@ },
            Command::Del { key } => CommandView::Del { key: key@ },
        }
    }
}

/// The value under which a command is encoded.
pub open spec fn command_wire(c: CommandView) -> WireView {
    match c {
        CommandView::Put { key, value } => Ok((key, value)),
        CommandView::Del { key } => Err(key),
    }
}

/// The command that a decoded value stands for.
pub open spec fn wire_command(w: WireView) -> CommandView {
    match w {
        Ok((key, value)) => CommandView::Put { key, value },
        Err(key) => CommandView::Del { key },
    }
}

/// The bytes of an encoded command.
pub open spec fn encode_command(c: CommandView) -> Seq<u8> {
    bincode_serialized(command_wire(c))
}

/// The command that a byte string decodes to, if any.
pub open spec fn decode_command(bytes: Seq<u8>) -> Option<CommandView> {
    match bincode_deserialized(bytes) {
        Some(w) => Some(wire_command(w)),
        None => None,
    }
}

impl Command {
    fn to_wire(&self) -> (w: Result<(String, String), String>)
        ensures
            crate::wire::wire_view(w) == command_wire(self@),
    {
        match self {
            Command::Put { key, value } => Ok((key.clone(), value.clone())),
            Command::Del { key } => Err(key.clone()),
        }
    }

    fn from_wire(w: Result<(String, String), String>) -> (c: Command)
        ensures
            c@ == wire_command(crate::wire::wire_view(w)),
    {
        match w {
            Ok((key, value)) => Command::Put { key, value },
            Err(key) => Command::Del { key },
        }
    }

    /// Encodes the command for a log entry. Decoding the bytes gives the
    /// command back.
    pub fn serialize(&self) -> (bytes: Vec<u8>)
        ensures
            bytes@ == encode_command(self@),
            decode_command(bytes@) == Some(self@),
    {
        let w = self.to_wire();
        bincode_serialize(&w)
    }

    /// Decodes a command from the bytes of a log entry. The bytes must hold
    /// an encoded command.
    pub fn deserialize(data: &[u8]) -> (c: Command)
        requires
            decode_command(data@) is Some,
        ensures
            decode_command(data@) == Some(c@),
    {
        match bincode_deserialize(data) {
            Some(w) => Self::from_wire(w),
            None => {
                proof {
                    assert(false);
                }
                Command::Del { key: String::new() }
            },
        }
    }

    /// Decodes a command, or gives `None` where the bytes hold none.
    pub fn try_deserialize(data: &[u8]) -> (c: Option<Command>)
        ensures
            match c {
                Some(c) => decode_command(data@) == Some(c@),
                None => decode_command(data@) is None,
            },
    {
        let probe = bincode_deserialize(data);
        if probe.is_none() {
            None
        } else {
            Some(Self::deserialize(data))
        }
    }
}

} // verus!
