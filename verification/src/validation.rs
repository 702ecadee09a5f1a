//! The capability interfaces of the factory's external collaborators: the
//! entropy source, the schema validation engine, and the protocol entity
//! decoder. The factory is generic over them, so real engines and test
//! doubles substitute freely without touching the orchestration logic.

use vstd::prelude::*;
use crate::errors::{ConsensusError, DecodeError};
use crate::identifier::ENTROPY_LENGTH;
use crate::value::Value;

verus! {

/// The report of a schema validation run: the payload is valid exactly
/// when the ordered error list is empty.
#[derive(Debug, PartialEq)]
pub struct ValidationResult {
    pub errors: Vec<ConsensusError>,
}

impl ValidationResult {
    /// Whether the validator accepted the value.
    pub open spec fn spec_is_valid(&self) -> bool {
        self.errors@.len() == 0
    }

    /// Whether the validator accepted the value.
    pub fn is_valid(&self) -> (r: bool)
        ensures
            r == self.spec_is_valid(),
    {
        self.errors.len() == 0
    }
}

/// The entropy source drawn on once per fields-path construction.
///
/// An implementation is relied upon — not checked here — to return
/// exactly [`ENTROPY_LENGTH`] fresh, unpredictable bytes on every call and
/// never to repeat them; repeating entropy for one owner would repeat the
/// derived identifier.
pub trait EntropyGenerator {
    /// Draw fresh entropy for one construction.
    fn generate(&self) -> (r: Vec<u8>)
        ensures
            r@.len() == ENTROPY_LENGTH,
    ;
}

/// The schema validation engine, an external collaborator. Given a generic
/// value it reports pass, or the ordered structured errors it found.
pub trait DataContractValidator {
    /// Validate a raw contract object against the document schema rules.
    fn validate(&self, raw_data_contract: &Value) -> (r: ValidationResult);
}

/// The protocol entity decoder, an external collaborator. It splits a
/// binary buffer into the envelope's protocol version and the decoded
/// generic value, or reports that the envelope is malformed.
pub trait ProtocolEntityDecoder {
    /// Decode a binary envelope into `(protocol_version, value)`.
    fn decode(&self, buffer: &Vec<u8>) -> (r: Result<(u32, Value), DecodeError>);
}

} // verus!
