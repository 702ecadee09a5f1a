//! The error taxonomy of the construction pipeline. Every failure is
//! returned to the immediate caller; nothing is retried or swallowed.

use vstd::prelude::*;
use crate::value::Value;

verus! {

/// The contract fields a generic object is read into. Conversion errors
/// name the field they concern through this type.
#[derive(Debug, Clone, Copy, PartialEq, Eq, Structural)]
pub enum ContractField {
    ProtocolVersion,
    SchemaUri,
    Version,
    OwnerId,
    Id,
    Documents,
    Definitions,
    Entropy,
}

/// Failure of the generic-object-to-contract conversion: the input is not a
/// keyed object, or a required field is missing or of the wrong shape.
#[derive(Debug, Clone, Copy, PartialEq, Eq, Structural)]
pub enum ConversionError {
    NotAnObject,
    MissingField(ContractField),
    MistypedField(ContractField),
}

/// A structured error reported by the schema validator. The validator is an
/// external collaborator; this pipeline only carries its reports.
#[derive(Debug, PartialEq)]
pub struct ConsensusError {
    pub code: u32,
    pub message: String,
}

/// Failure of the protocol entity decoder: the binary envelope could not be
/// decoded (unknown version, truncated buffer, corrupt framing).
#[derive(Debug, PartialEq)]
pub struct DecodeError {
    pub message: String,
}

/// Every error the construction pipeline can return.
#[derive(Debug, PartialEq)]
pub enum ProtocolError {
    /// Malformed identifier bytes were supplied to a constructor.
    InvalidIdentifier,
    /// The fields-path `documents` input is not a keyed object.
    NotAMap,
    /// Schema validation rejected the payload; carries the full error list
    /// and the original raw input for caller diagnostics.
    InvalidContract { errors: Vec<ConsensusError>, raw_input: Value },
    /// The binary envelope could not be decoded.
    Decode(DecodeError),
    /// The decoded value is not a keyed object.
    SerializedObjectParsing { parsing_error: String },
    /// A required field was missing or mistyped during conversion.
    Conversion(ConversionError),
}

} // verus!
