//! The contract factory: the three construction entry points, orchestrating
//! identifier derivation, document normalization, decoding and the schema
//! validation gate. The factory owns no mutable state beyond the
//! configuration it was built with.

use vstd::prelude::*;
use vstd::string::StringExecFns;
use crate::contract::{
    conversion_entries_post, conversion_post, DataContract, SCHEMA,
};
use crate::documents::{normalize_entries, DocumentMap};
use crate::errors::ProtocolError;
use crate::identifier::{
    contract_id, generate_data_contract_id, lemma_contract_id_entropy_injective, Identifier,
    ENTROPY_LENGTH,
};
use crate::validation::{DataContractValidator, EntropyGenerator, ProtocolEntityDecoder};
use crate::value::{entries_view, lemma_lookup_push_same, Value};

verus! {

/// What `create_from_object` returns when the validation gate rejects the
/// payload: the nonempty ordered error list, with the raw input kept for
/// diagnostic replay.
pub open spec fn invalid_contract_post(raw: Value, r: Result<DataContract, ProtocolError>) -> bool {
    r matches Err(ProtocolError::InvalidContract { errors, raw_input }) && errors@.len() > 0
        && raw_input == raw
}

/// As [`invalid_contract_post`], for the buffer path, where the rejected
/// payload is the decoded object with the envelope version written in.
pub open spec fn invalid_contract_entries_post(
    s: Seq<(Seq<char>, Value)>,
    r: Result<DataContract, ProtocolError>,
) -> bool {
    r matches Err(ProtocolError::InvalidContract { errors, raw_input }) && errors@.len() > 0
        && raw_input is Object && entries_view(raw_input->Object_0@) == s
}

/// The entries of a decoded object after the envelope's protocol version
/// is written under `protocolVersion`. The write is appended, so under
/// last-write-wins reads the envelope is always authoritative over any
/// version the payload body claimed.
pub open spec fn injected_entries(raw: Value, version: u32) -> Seq<(Seq<char>, Value)> {
    entries_view(raw->Object_0@).push(("protocolVersion"@, Value::Number(version as i64)))
}

/// The message carried by [`ProtocolError::SerializedObjectParsing`],
/// describing the shape of the offending decoded value.
pub open spec fn not_a_map_message(v: Value) -> Seq<char> {
    "expected a keyed object, found "@ + v.spec_kind_name()
}

/// The consensus-critical invariant of creation: two contracts created for
/// one owner with different entropy never collide on an identifier. The
/// premises are exactly what [`DataContractFactory::create`] ensures of
/// every contract it returns.
pub proof fn lemma_created_contracts_never_collide(
    owner: Seq<u8>,
    c1: DataContract,
    c2: DataContract,
)
    requires
        c1.id@ == contract_id(owner, c1.entropy@),
        c2.id@ == contract_id(owner, c2.entropy@),
        c1.entropy@.len() == ENTROPY_LENGTH,
        c2.entropy@.len() == ENTROPY_LENGTH,
        c1.entropy@ != c2.entropy@,
    ensures
        c1.id@ != c2.id@,
{
    lemma_contract_id_entropy_injective(owner, c1.entropy@, c2.entropy@);
}

/// The contract factory. `protocol_version` is the version stamped on
/// fields-path contracts; the three collaborators are injected at
/// construction.
pub struct DataContractFactory<E, V, D> {
    /// The protocol version stamped on contracts built from fields.
    pub protocol_version: u32,
    /// The entropy source for identity derivation.
    pub entropy_generator: E,
    /// The schema validation engine guarding untrusted payloads.
    pub validator: V,
    /// The decoder splitting binary envelopes.
    pub decoder: D,
}

impl<E: EntropyGenerator, V: DataContractValidator, D: ProtocolEntityDecoder> DataContractFactory<
    E,
    V,
    D,
> {
    /// Build a factory around its configuration.
    pub fn new(protocol_version: u32, entropy_generator: E, validator: V, decoder: D) -> (r: Self)
        ensures
            r.protocol_version == protocol_version,
            r.entropy_generator == entropy_generator,
            r.validator == validator,
            r.decoder == decoder,
    {
        DataContractFactory { protocol_version, entropy_generator, validator, decoder }
    }

    /// Create a contract from an owner identifier and a keyed-object map of
    /// document schemas. Draws fresh entropy, derives the identifier from
    /// `(owner_id, entropy)`, and normalizes the documents; a non-object
    /// `documents` input fails with [`ProtocolError::NotAMap`] and nothing
    /// else. No schema validation runs on this path.
    pub fn create(&self, owner_id: Identifier, documents: Value) -> (r: Result<
        DataContract,
        ProtocolError,
    >)
        requires
            owner_id.wf(),
        ensures
            match r {
                Ok(c) => {
                    &&& documents is Object
                    &&& c.wf()
                    &&& c.protocol_version == self.protocol_version
                    &&& c.schema@ == SCHEMA@
                    &&& c.id@ == contract_id(owner_id@, c.entropy@)
                    &&& c.version == 1
                    &&& c.owner_id == owner_id
                    &&& c.documents@ == normalize_entries(entries_view(documents->Object_0@))
                    &&& c.defs@ == Seq::<(Seq<char>, Value)>::empty()
                    &&& c.entropy@.len() == ENTROPY_LENGTH
                },
                Err(e) => !(documents is Object) && e == ProtocolError::NotAMap,
            },
    {
        let documents_map = match DocumentMap::normalize(documents) {
            Ok(m) => m,
            Err(e) => {
                return Err(e);
            },
        };
        let entropy = self.entropy_generator.generate();
        let owner_buffer = owner_id.to_buffer();
        let id_bytes = generate_data_contract_id(&owner_buffer, &entropy);
        let data_contract_id = match Identifier::from_bytes(id_bytes.as_slice()) {
            Ok(id) => id,
            Err(_) => {
                proof {
                    assert(false);
                }
                return Err(ProtocolError::InvalidIdentifier);
            },
        };
        Ok(
            DataContract {
                protocol_version: self.protocol_version,
                schema: SCHEMA.to_owned(),
                id: data_contract_id,
                version: 1,
                owner_id,
                documents: documents_map,
                defs: DocumentMap::new(),
                entropy,
            },
        )
    }

    /// Create a contract from a parsed generic object. Unless
    /// `skip_validation` is set, the schema validator gates the input: a
    /// payload it rejects fails with [`ProtocolError::InvalidContract`]
    /// carrying the validator's errors and the original input, and no
    /// contract is constructed. The conversion itself is total and exact:
    /// see [`conversion_post`].
    pub fn create_from_object(&self, raw_data_contract: Value, skip_validation: bool) -> (r: Result<
        DataContract,
        ProtocolError,
    >)
        ensures
            skip_validation ==> conversion_post(raw_data_contract, r),
            !skip_validation ==> conversion_post(raw_data_contract, r) || invalid_contract_post(
                raw_data_contract,
                r,
            ),
    {
        if !skip_validation {
            let result = self.validator.validate(&raw_data_contract);
            if !result.is_valid() {
                return Err(
                    ProtocolError::InvalidContract {
                        errors: result.errors,
                        raw_input: raw_data_contract,
                    },
                );
            }
        }
        DataContract::from_raw_object(raw_data_contract)
    }

    /// Create a contract from an already-decoded envelope: require the
    /// decoded value to be a keyed object, write the envelope's protocol
    /// version into it — the envelope is authoritative over any version the
    /// body claimed — and hand it to the validation gate and conversion.
    pub fn create_from_decoded(
        &self,
        protocol_version: u32,
        raw_entity: Value,
        skip_validation: bool,
    ) -> (r: Result<DataContract, ProtocolError>)
        ensures
            !(raw_entity is Object) ==> (r matches Err(
                ProtocolError::SerializedObjectParsing { parsing_error },
            ) && parsing_error@ == not_a_map_message(raw_entity)),
            raw_entity is Object ==> ({
                let s = injected_entries(raw_entity, protocol_version);
                if skip_validation {
                    conversion_entries_post(s, r)
                } else {
                    conversion_entries_post(s, r) || invalid_contract_entries_post(s, r)
                }
            }),
            r matches Ok(c) ==> c.wf() && c.protocol_version == protocol_version,
    {
        let mut pairs = match raw_entity {
            Value::Object(pairs) => pairs,
            other => {
                let mut parsing_error: String = "expected a keyed object, found ".to_owned();
                parsing_error.append(other.kind_name());
                return Err(ProtocolError::SerializedObjectParsing { parsing_error });
            },
        };
        let ghost base = entries_view(pairs@);
        pairs.push(("protocolVersion".to_owned(), Value::Number(protocol_version as i64)));
        proof {
            assert(entries_view(pairs@) =~= base.push(
                ("protocolVersion"@, Value::Number(protocol_version as i64)),
            ));
            lemma_lookup_push_same(base, "protocolVersion"@, Value::Number(protocol_version as i64));
        }
        let injected = Value::Object(pairs);
        self.create_from_object(injected, skip_validation)
    }

    /// Create a contract from a raw binary payload: decode the envelope,
    /// then proceed as [`Self::create_from_decoded`]. A decoder failure
    /// propagates as [`ProtocolError::Decode`].
    pub fn create_from_buffer(&self, buffer: Vec<u8>, skip_validation: bool) -> (r: Result<
        DataContract,
        ProtocolError,
    >)
        ensures
            r matches Ok(c) ==> c.wf(),
            r matches Err(e) ==> {
                ||| e matches ProtocolError::Decode(_)
                ||| e matches ProtocolError::SerializedObjectParsing { .. }
                ||| (e matches ProtocolError::InvalidContract { errors, .. } && errors@.len() > 0)
                ||| e matches ProtocolError::Conversion(_)
            },
    {
        let decoded = self.decoder.decode(&buffer);
        match decoded {
            Err(e) => Err(ProtocolError::Decode(e)),
            Ok((protocol_version, raw_entity)) => self.create_from_decoded(
                protocol_version,
                raw_entity,
                skip_validation,
            ),
        }
    }
}

} // verus!
