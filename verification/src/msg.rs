//! Wire-level constants and the small header enumerations shared by every
//! node: field offsets of the fixed frame layout and the TYPE, CMD and KEY
//! value sets.

use vstd::prelude::*;

verus! {

/// Byte offset of the ID field in a wire frame.
pub const ID_OFFSET: usize = 0;

/// Byte offset of the TYPE field in a wire frame.
pub const TYPE_OFFSET: usize = 2;

/// Byte offset of the CMD field in a wire frame.
pub const CMD_OFFSET: usize = 4;

/// Byte offset of the KEY field in a wire frame.
pub const KEY_OFFSET: usize = 6;

/// Byte offset of the payload: the header holds ID, TYPE, CMD and KEY,
/// two bytes each.
pub const PAYLOAD_OFFSET: usize = 8;

/// Keys at or above this value are scoped to DATA messages; keys below it
/// are scoped to CONFIGURATION messages.
pub const MSG_KEY_DIV: usize = 1000;

/// Default payload size in bytes of a freshly grown message buffer.
pub const DEF_PL_SIZE: usize = 512;

/// Category of a wire message.
#[allow(non_camel_case_types)]
#[derive(Clone, Copy, Debug, PartialEq, Eq, Structural)]
pub enum MessageType {
    UNDEFINED,
    CONFIGURATION,
    DATA,
    NETWORK,
}

/// Action requested by a wire message.
#[allow(non_camel_case_types)]
#[derive(Clone, Copy, Debug, PartialEq, Eq, Structural)]
pub enum MessageCommand {
    RESERVED,
    READ,
    WRITE,
    PRINT,
    ACK,
    INPUT,
    REPLICATE,
}

/// Semantic key of a wire message. The `C_` keys are scoped to
/// CONFIGURATION messages, the `D_` keys to DATA messages; the two scopes
/// are kept apart on the wire by an offset of `MSG_KEY_DIV`.
#[allow(non_camel_case_types)]
#[derive(Clone, Copy, Debug, PartialEq, Eq, Structural)]
pub enum MessageKey {
    UNDEFINED,
    C_ACTBTS,
    C_RAWDAT,
    C_SDRLEN,
    D_INPUT,
    D_SPOOL,
}

/// Role of a node process in the pipeline.
#[allow(non_camel_case_types)]
#[derive(Clone, Copy, Debug, PartialEq, Eq, Structural)]
pub enum NodeType {
    UNDEFINED,
    SCALAR_ENCODER,
    SPATIAL_POOLER,
}

impl MessageType {
    /// Wire value of this type.
    pub open spec fn value(self) -> u16 {
        match self {
            MessageType::UNDEFINED => 0,
            MessageType::CONFIGURATION => 1,
            MessageType::DATA => 2,
            MessageType::NETWORK => 3,
        }
    }

    /// Inverse of `value`: the type a wire value stands for, if any.
    pub open spec fn spec_from_u16(v: u16) -> Option<MessageType> {
        if v == 0 {
            Some(MessageType::UNDEFINED)
        } else if v == 1 {
            Some(MessageType::CONFIGURATION)
        } else if v == 2 {
            Some(MessageType::DATA)
        } else if v == 3 {
            Some(MessageType::NETWORK)
        } else {
            None
        }
    }

    /// Wire value of this type.
    pub fn to_u16(&self) -> (r: Option<u16>)
        ensures
            r == Some(self.value()),
    {
        match self {
            MessageType::UNDEFINED => Some(0),
            MessageType::CONFIGURATION => Some(1),
            MessageType::DATA => Some(2),
            MessageType::NETWORK => Some(3),
        }
    }

    /// Decodes a wire value; an unknown value yields `None`.
    pub fn from_u16(v: u16) -> (r: Option<MessageType>)
        ensures
            r == MessageType::spec_from_u16(v),
    {
        match v {
            0 => Some(MessageType::UNDEFINED),
            1 => Some(MessageType::CONFIGURATION),
            2 => Some(MessageType::DATA),
            3 => Some(MessageType::NETWORK),
            _ => None,
        }
    }
}

impl MessageCommand {
    /// Wire value of this command.
    pub open spec fn value(self) -> u16 {
        match self {
            MessageCommand::RESERVED => 0,
            MessageCommand::READ => 1,
            MessageCommand::WRITE => 2,
            MessageCommand::PRINT => 3,
            MessageCommand::ACK => 4,
            MessageCommand::INPUT => 5,
            MessageCommand::REPLICATE => 6,
        }
    }

    /// Inverse of `value`: the command a wire value stands for, if any.
    pub open spec fn spec_from_u16(v: u16) -> Option<MessageCommand> {
        if v == 0 {
            Some(MessageCommand::RESERVED)
        } else if v == 1 {
            Some(MessageCommand::READ)
        } else if v == 2 {
            Some(MessageCommand::WRITE)
        } else if v == 3 {
            Some(MessageCommand::PRINT)
        } else if v == 4 {
            Some(MessageCommand::ACK)
        } else if v == 5 {
            Some(MessageCommand::INPUT)
        } else if v == 6 {
            Some(MessageCommand::REPLICATE)
        } else {
            None
        }
    }

    /// Wire value of this command.
    pub fn to_u16(&self) -> (r: Option<u16>)
        ensures
            r == Some(self.value()),
    {
        match self {
            MessageCommand::RESERVED => Some(0),
            MessageCommand::READ => Some(1),
            MessageCommand::WRITE => Some(2),
            MessageCommand::PRINT => Some(3),
            MessageCommand::ACK => Some(4),
            MessageCommand::INPUT => Some(5),
            MessageCommand::REPLICATE => Some(6),
        }
    }

    /// Decodes a wire value; an unknown value yields `None`.
    pub fn from_u16(v: u16) -> (r: Option<MessageCommand>)
        ensures
            r == MessageCommand::spec_from_u16(v),
    {
        match v {
            0 => Some(MessageCommand::RESERVED),
            1 => Some(MessageCommand::READ),
            2 => Some(MessageCommand::WRITE),
            3 => Some(MessageCommand::PRINT),
            4 => Some(MessageCommand::ACK),
            5 => Some(MessageCommand::INPUT),
            6 => Some(MessageCommand::REPLICATE),
            _ => None,
        }
    }
}

impl MessageKey {
    /// Wire value of this key: DATA-scoped keys live `MSG_KEY_DIV` above
    /// the CONFIGURATION-scoped keys.
    pub open spec fn value(self) -> u16 {
        match self {
            MessageKey::UNDEFINED => 0,
            MessageKey::C_ACTBTS => 1,
            MessageKey::C_RAWDAT => 2,
            MessageKey::C_SDRLEN => 3,
            MessageKey::D_INPUT => 1001,
            MessageKey::D_SPOOL => 1002,
        }
    }

    /// Inverse of `value`: the key a wire value stands for, if any.
    pub open spec fn spec_from_u16(v: u16) -> Option<MessageKey> {
        if v == 0 {
            Some(MessageKey::UNDEFINED)
        } else if v == 1 {
            Some(MessageKey::C_ACTBTS)
        } else if v == 2 {
            Some(MessageKey::C_RAWDAT)
        } else if v == 3 {
            Some(MessageKey::C_SDRLEN)
        } else if v == 1001 {
            Some(MessageKey::D_INPUT)
        } else if v == 1002 {
            Some(MessageKey::D_SPOOL)
        } else {
            None
        }
    }

    /// Wire value of this key.
    pub fn to_u16(&self) -> (r: Option<u16>)
        ensures
            r == Some(self.value()),
    {
        match self {
            MessageKey::UNDEFINED => Some(0),
            MessageKey::C_ACTBTS => Some(1),
            MessageKey::C_RAWDAT => Some(2),
            MessageKey::C_SDRLEN => Some(3),
            MessageKey::D_INPUT => Some(1001),
            MessageKey::D_SPOOL => Some(1002),
        }
    }

    /// Decodes a wire value; an unknown value yields `None`.
    pub fn from_u16(v: u16) -> (r: Option<MessageKey>)
        ensures
            r == MessageKey::spec_from_u16(v),
    {
        match v {
            0 => Some(MessageKey::UNDEFINED),
            1 => Some(MessageKey::C_ACTBTS),
            2 => Some(MessageKey::C_RAWDAT),
            3 => Some(MessageKey::C_SDRLEN),
            1001 => Some(MessageKey::D_INPUT),
            1002 => Some(MessageKey::D_SPOOL),
            _ => None,
        }
    }
}

impl NodeType {
    /// Wire value of this node type.
    pub open spec fn value(self) -> u16 {
        match self {
            NodeType::UNDEFINED => 0,
            NodeType::SCALAR_ENCODER => 1,
            NodeType::SPATIAL_POOLER => 2,
        }
    }

    /// Inverse of `value`: the node type a wire value stands for, if any.
    pub open spec fn spec_from_u16(v: u16) -> Option<NodeType> {
        if v == 0 {
            Some(NodeType::UNDEFINED)
        } else if v == 1 {
            Some(NodeType::SCALAR_ENCODER)
        } else if v == 2 {
            Some(NodeType::SPATIAL_POOLER)
        } else {
            None
        }
    }

    /// Wire value of this node type.
    pub fn to_u16(&self) -> (r: Option<u16>)
        ensures
            r == Some(self.value()),
    {
        match self {
            NodeType::UNDEFINED => Some(0),
            NodeType::SCALAR_ENCODER => Some(1),
            NodeType::SPATIAL_POOLER => Some(2),
        }
    }

    /// Decodes a wire value; an unknown value yields `None`.
    pub fn from_u16(v: u16) -> (r: Option<NodeType>)
        ensures
            r == NodeType::spec_from_u16(v),
    {
        match v {
            0 => Some(NodeType::UNDEFINED),
            1 => Some(NodeType::SCALAR_ENCODER),
            2 => Some(NodeType::SPATIAL_POOLER),
            _ => None,
        }
    }
}

} // verus!
