//! Error values of the codecs and of area construction.

use vstd::prelude::*;

verus! {

/// Why packing or unpacking a grid failed.
#[derive(Debug, Clone, Copy, PartialEq, Eq, Structural)]
pub enum CodecError {
    /// More than 255 distinct kinds were seen while packing.
    CapacityExceeded,
    /// A packed byte names a kind that the kind table does not hold.
    InvalidIndex,
    /// The packed bytes do not divide into whole records.
    MalformedLength,
    /// The text is not standard base64.
    InvalidBase64,
}

/// The family of definitions in which a lookup can fail.
#[derive(Debug, Clone, Copy, PartialEq, Eq, Structural)]
pub enum DefinitionKind {
    Prop,
    Encounter,
    Sprite,
    Sound,
}

/// Why an area could not be built.
#[derive(Debug, Clone, Copy, PartialEq, Eq, Structural)]
pub enum AreaError {
    /// An identifier of the given family has no entry in the registry.
    MissingDefinition(DefinitionKind),
}

impl CodecError {
    /// A short description, for messages.
    pub fn message(&self) -> (text: &'static str)
        ensures
            text@ == Self::message_of(*self)@,
    {
        match self {
            CodecError::CapacityExceeded => "Can only serialize up to 255 kinds",
            CodecError::InvalidIndex => "Invalid kind index in packed data",
            CodecError::MalformedLength => "Packed data has an incomplete record",
            CodecError::InvalidBase64 => "Invalid base64 encoding",
        }
    }

    /// The description of each error.
    pub open spec fn message_of(e: CodecError) -> &'static str {
        match e {
            CodecError::CapacityExceeded => "Can only serialize up to 255 kinds",
            CodecError::InvalidIndex => "Invalid kind index in packed data",
            CodecError::MalformedLength => "Packed data has an incomplete record",
            CodecError::InvalidBase64 => "Invalid base64 encoding",
        }
    }
}

} // verus!
