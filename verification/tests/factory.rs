use dpp::contract::SCHEMA;
use dpp::errors::{
    ConsensusError, ContractField, ConversionError, DecodeError, ProtocolError,
};
use dpp::factory::DataContractFactory;
use dpp::identifier::{generate_data_contract_id, Identifier};
use dpp::validation::{
    DataContractValidator, EntropyGenerator, ProtocolEntityDecoder, ValidationResult,
};
use dpp::value::Value;

struct FixedEntropy(Vec<u8>);

impl EntropyGenerator for FixedEntropy {
    fn generate(&self) -> Vec<u8> {
        self.0.clone()
    }
}

struct PassValidator;

impl DataContractValidator for PassValidator {
    fn validate(&self, _raw_data_contract: &Value) -> ValidationResult {
        ValidationResult { errors: Vec::new() }
    }
}

struct RejectValidator {
    code: u32,
    message: String,
}

impl DataContractValidator for RejectValidator {
    fn validate(&self, _raw_data_contract: &Value) -> ValidationResult {
        ValidationResult {
            errors: vec![ConsensusError {
                code: self.code,
                message: self.message.clone(),
            }],
        }
    }
}

struct FailingDecoder {
    message: String,
}

impl ProtocolEntityDecoder for FailingDecoder {
    fn decode(&self, _buffer: &Vec<u8>) -> Result<(u32, Value), DecodeError> {
        Err(DecodeError {
            message: self.message.clone(),
        })
    }
}

struct ValueDecoder {
    version: u32,
    build: fn() -> Value,
}

impl ProtocolEntityDecoder for ValueDecoder {
    fn decode(&self, _buffer: &Vec<u8>) -> Result<(u32, Value), DecodeError> {
        Ok((self.version, (self.build)()))
    }
}

fn obj(pairs: Vec<(&str, Value)>) -> Value {
    Value::Object(pairs.into_iter().map(|(k, v)| (k.to_string(), v)).collect())
}

fn bytes_value(b: u8) -> Value {
    Value::Array((0..32).map(|_| Value::Number(b as i64)).collect())
}

fn note_documents() -> Value {
    obj(vec![(
        "note",
        obj(vec![("type", Value::Text("object".to_string()))]),
    )])
}

fn full_raw_contract() -> Value {
    obj(vec![
        ("protocolVersion", Value::Number(4)),
        ("version", Value::Number(2)),
        ("ownerId", bytes_value(8)),
        ("$id", bytes_value(9)),
        ("documents", note_documents()),
    ])
}

fn owner() -> Identifier {
    Identifier::from_bytes(&[5u8; 32]).unwrap()
}

fn fields_factory() -> DataContractFactory<FixedEntropy, PassValidator, FailingDecoder> {
    DataContractFactory::new(
        3,
        FixedEntropy(vec![0x11u8; 32]),
        PassValidator,
        FailingDecoder {
            message: "unused".to_string(),
        },
    )
}

#[test]
fn create_builds_contract_from_fields() {
    let factory = fields_factory();
    let contract = factory.create(owner(), note_documents()).unwrap();
    assert_eq!(contract.version, 1);
    assert_eq!(contract.protocol_version, 3);
    assert_eq!(contract.schema.as_str(), SCHEMA);
    assert_eq!(contract.documents.len(), 1);
    assert!(contract.documents.contains_key("note"));
    assert_eq!(contract.defs.len(), 0);
    assert_eq!(contract.entropy, vec![0x11u8; 32]);
    let id = contract.id.to_buffer();
    assert_eq!(id.len(), 32);
    assert_eq!(
        id,
        generate_data_contract_id(&owner().to_buffer(), &contract.entropy)
    );
}

#[test]
fn create_rejects_non_map_documents() {
    let factory = fields_factory();
    let r1 = factory.create(owner(), Value::Array(vec![Value::Number(1)]));
    assert_eq!(r1, Err(ProtocolError::NotAMap));
    let r2 = factory.create(owner(), Value::Number(12));
    assert_eq!(r2, Err(ProtocolError::NotAMap));
    // The failure is deterministic: entropy plays no part in it.
    let r3 = factory.create(owner(), Value::Number(12));
    assert_eq!(r2, r3);
}

#[test]
fn create_from_object_converts_every_field() {
    let factory = fields_factory();
    let contract = factory.create_from_object(full_raw_contract(), false).unwrap();
    assert_eq!(contract.protocol_version, 4);
    assert_eq!(contract.version, 2);
    assert_eq!(contract.schema.as_str(), SCHEMA);
    assert_eq!(contract.owner_id.to_buffer(), vec![8u8; 32]);
    assert_eq!(contract.id.to_buffer(), vec![9u8; 32]);
    assert_eq!(contract.documents.len(), 1);
    assert!(contract.documents.contains_key("note"));
    assert_eq!(contract.defs.len(), 0);
    assert_eq!(contract.entropy, vec![0u8; 32]);
}

#[test]
fn create_from_object_honours_optional_fields() {
    let factory = fields_factory();
    let raw = obj(vec![
        ("protocolVersion", Value::Number(4)),
        ("$schema", Value::Text("https://example.invalid/meta".to_string())),
        ("version", Value::Number(2)),
        ("ownerId", bytes_value(8)),
        ("$id", bytes_value(9)),
        ("documents", note_documents()),
        ("$defs", obj(vec![("shared", Value::Bool(true))])),
        ("entropy", bytes_value(0x42)),
    ]);
    let contract = factory.create_from_object(raw, true).unwrap();
    assert_eq!(contract.schema.as_str(), "https://example.invalid/meta");
    assert_eq!(contract.defs.len(), 1);
    assert!(contract.defs.contains_key("shared"));
    assert_eq!(contract.entropy, vec![0x42u8; 32]);
}

#[test]
fn create_from_object_last_write_wins() {
    let factory = fields_factory();
    let raw = obj(vec![
        ("protocolVersion", Value::Number(5)),
        ("version", Value::Number(2)),
        ("ownerId", bytes_value(8)),
        ("$id", bytes_value(9)),
        ("documents", note_documents()),
        ("protocolVersion", Value::Number(9)),
    ]);
    let contract = factory.create_from_object(raw, true).unwrap();
    assert_eq!(contract.protocol_version, 9);
}

#[test]
fn create_from_object_validation_gate_blocks() {
    let factory = DataContractFactory::new(
        3,
        FixedEntropy(vec![0u8; 32]),
        RejectValidator {
            code: 1030,
            message: "missing documents schema".to_string(),
        },
        FailingDecoder {
            message: "unused".to_string(),
        },
    );
    let result = factory.create_from_object(full_raw_contract(), false);
    match result {
        Err(ProtocolError::InvalidContract { errors, raw_input }) => {
            assert_eq!(errors.len(), 1);
            assert_eq!(errors[0].code, 1030);
            assert_eq!(errors[0].message.as_str(), "missing documents schema");
            assert_eq!(raw_input, full_raw_contract());
        }
        other => panic!("expected InvalidContract, got {:?}", other),
    }
}

#[test]
fn create_from_object_skip_validation_bypasses_gate() {
    let factory = DataContractFactory::new(
        3,
        FixedEntropy(vec![0u8; 32]),
        RejectValidator {
            code: 1030,
            message: "rejected".to_string(),
        },
        FailingDecoder {
            message: "unused".to_string(),
        },
    );
    let result = factory.create_from_object(full_raw_contract(), true);
    assert!(result.is_ok());
}

#[test]
fn create_from_object_is_idempotent() {
    let factory = fields_factory();
    let r1 = factory.create_from_object(full_raw_contract(), false);
    let r2 = factory.create_from_object(full_raw_contract(), false);
    assert_eq!(r1, r2);
    let rejecting = DataContractFactory::new(
        3,
        FixedEntropy(vec![0u8; 32]),
        RejectValidator {
            code: 7,
            message: "no".to_string(),
        },
        FailingDecoder {
            message: "unused".to_string(),
        },
    );
    let e1 = rejecting.create_from_object(full_raw_contract(), false);
    let e2 = rejecting.create_from_object(full_raw_contract(), false);
    assert_eq!(e1, e2);
}

#[test]
fn conversion_reports_missing_fields() {
    let factory = fields_factory();
    let raw = obj(vec![("version", Value::Number(2))]);
    assert_eq!(
        factory.create_from_object(raw, true),
        Err(ProtocolError::Conversion(ConversionError::MissingField(
            ContractField::ProtocolVersion
        )))
    );
    let raw = obj(vec![
        ("protocolVersion", Value::Number(4)),
        ("version", Value::Number(2)),
        ("ownerId", bytes_value(8)),
        ("$id", bytes_value(9)),
    ]);
    assert_eq!(
        factory.create_from_object(raw, true),
        Err(ProtocolError::Conversion(ConversionError::MissingField(
            ContractField::Documents
        )))
    );
}

#[test]
fn conversion_reports_mistyped_fields() {
    let factory = fields_factory();
    let raw = obj(vec![
        ("protocolVersion", Value::Text("four".to_string())),
        ("version", Value::Number(2)),
    ]);
    assert_eq!(
        factory.create_from_object(raw, true),
        Err(ProtocolError::Conversion(ConversionError::MistypedField(
            ContractField::ProtocolVersion
        )))
    );
    let raw = obj(vec![
        ("protocolVersion", Value::Number(-1)),
        ("version", Value::Number(2)),
    ]);
    assert_eq!(
        factory.create_from_object(raw, true),
        Err(ProtocolError::Conversion(ConversionError::MistypedField(
            ContractField::ProtocolVersion
        )))
    );
    let mut short = Vec::new();
    for _ in 0..31 {
        short.push(Value::Number(1));
    }
    let raw = obj(vec![
        ("protocolVersion", Value::Number(4)),
        ("version", Value::Number(2)),
        ("ownerId", Value::Array(short)),
        ("$id", bytes_value(9)),
        ("documents", note_documents()),
    ]);
    assert_eq!(
        factory.create_from_object(raw, true),
        Err(ProtocolError::Conversion(ConversionError::MistypedField(
            ContractField::OwnerId
        )))
    );
    let raw = obj(vec![
        ("protocolVersion", Value::Number(4)),
        ("version", Value::Number(2)),
        ("ownerId", bytes_value(8)),
        ("$id", bytes_value(9)),
        ("documents", Value::Number(1)),
    ]);
    assert_eq!(
        factory.create_from_object(raw, true),
        Err(ProtocolError::Conversion(ConversionError::MistypedField(
            ContractField::Documents
        )))
    );
    let raw = obj(vec![
        ("protocolVersion", Value::Number(4)),
        ("$schema", Value::Number(1)),
        ("version", Value::Number(2)),
    ]);
    assert_eq!(
        factory.create_from_object(raw, true),
        Err(ProtocolError::Conversion(ConversionError::MistypedField(
            ContractField::SchemaUri
        )))
    );
}

#[test]
fn conversion_rejects_non_object_input() {
    let factory = fields_factory();
    assert_eq!(
        factory.create_from_object(Value::Number(1), true),
        Err(ProtocolError::Conversion(ConversionError::NotAnObject))
    );
}

#[test]
fn create_from_buffer_propagates_decode_error() {
    let factory = DataContractFactory::new(
        3,
        FixedEntropy(vec![0u8; 32]),
        PassValidator,
        FailingDecoder {
            message: "truncated buffer".to_string(),
        },
    );
    assert_eq!(
        factory.create_from_buffer(vec![1, 2, 3], false),
        Err(ProtocolError::Decode(DecodeError {
            message: "truncated buffer".to_string(),
        }))
    );
}

#[test]
fn create_from_buffer_rejects_non_object_payload() {
    let factory = DataContractFactory::new(
        3,
        FixedEntropy(vec![0u8; 32]),
        PassValidator,
        ValueDecoder {
            version: 1,
            build: || Value::Number(5),
        },
    );
    match factory.create_from_buffer(vec![0], false) {
        Err(ProtocolError::SerializedObjectParsing { parsing_error }) => {
            assert_eq!(
                parsing_error.as_str(),
                "expected a keyed object, found a number"
            );
        }
        other => panic!("expected SerializedObjectParsing, got {:?}", other),
    }
}

fn body_claiming_version_99() -> Value {
    obj(vec![
        ("protocolVersion", Value::Number(99)),
        ("version", Value::Number(2)),
        ("ownerId", bytes_value(8)),
        ("$id", bytes_value(9)),
        ("documents", note_documents()),
    ])
}

#[test]
fn create_from_buffer_envelope_version_wins() {
    let factory = DataContractFactory::new(
        3,
        FixedEntropy(vec![0u8; 32]),
        RejectValidator {
            code: 1,
            message: "schema malformed".to_string(),
        },
        ValueDecoder {
            version: 7,
            build: body_claiming_version_99,
        },
    );
    let contract = factory.create_from_buffer(vec![0], true).unwrap();
    assert_eq!(contract.protocol_version, 7);
}

#[test]
fn create_from_buffer_validation_gate_blocks() {
    let factory = DataContractFactory::new(
        3,
        FixedEntropy(vec![0u8; 32]),
        RejectValidator {
            code: 1,
            message: "schema malformed".to_string(),
        },
        ValueDecoder {
            version: 1,
            build: body_claiming_version_99,
        },
    );
    let result = factory.create_from_buffer(vec![0], false);
    match result {
        Err(ProtocolError::InvalidContract { errors, .. }) => {
            assert_eq!(errors.len(), 1);
            assert_eq!(errors[0].message.as_str(), "schema malformed");
        }
        other => panic!("expected InvalidContract, got {:?}", other),
    }
}

#[test]
fn validation_result_reports_validity() {
    let valid = ValidationResult { errors: Vec::new() };
    assert!(valid.is_valid());
    let invalid = ValidationResult {
        errors: vec![ConsensusError {
            code: 1,
            message: "bad".to_string(),
        }],
    };
    assert!(!invalid.is_valid());
}
