//! The contract entity and the total conversion from a generic keyed
//! object to a contract.
//!
//! The conversion reads each field under a fixed external name
//! (`protocolVersion`, `$schema`, `version`, `ownerId`, `$id`, `documents`,
//! `$defs`, `entropy`), with last-write-wins reads. A missing or mistyped
//! required field fails with an error naming that field; fields are checked
//! in a fixed order, so the outcome is a function of the input alone.

use vstd::prelude::*;
use crate::documents::{normalize_entries, DocumentMap};
use crate::errors::{ContractField, ConversionError, ProtocolError};
use crate::identifier::{Identifier, ENTROPY_LENGTH, IDENTIFIER_LENGTH};
use crate::value::{binary_view, entries_view, is_binary, lookup, Value};

verus! {

/// The fixed URI of the meta-schema every contract conforms to.
pub const SCHEMA: &'static str = "https://schema.dash.org/dpp-0-4-0/meta/data-contract";

/// The entropy recorded when a payload carries none: all zeros.
pub open spec fn spec_zero_entropy() -> Seq<u8> {
    Seq::new(ENTROPY_LENGTH as nat, |i: int| 0u8)
}

/// The immutable, identity-bearing contract document. Created exactly once
/// by one of the factory operations and never mutated afterwards.
#[derive(Debug, PartialEq)]
pub struct DataContract {
    /// The wire format version in effect at construction time.
    pub protocol_version: u32,
    /// The URI of the meta-schema the contract conforms to.
    pub schema: String,
    /// The contract's derived identifier.
    pub id: Identifier,
    /// The contract's own schema version; starts at 1 on creation.
    pub version: u32,
    /// The identifier of the creating party.
    pub owner_id: Identifier,
    /// The ordered, duplicate-free document schemas by document-type name.
    pub documents: DocumentMap,
    /// Reusable schema fragments by definition name; empty by default.
    pub defs: DocumentMap,
    /// The entropy mixed into the identity derivation; kept for audit.
    pub entropy: Vec<u8>,
}

impl DataContract {
    /// Structural validity: identifiers of the fixed length, duplicate-free
    /// maps, entropy of the fixed length.
    pub open spec fn wf(&self) -> bool {
        &&& self.id.wf()
        &&& self.owner_id.wf()
        &&& self.documents.wf()
        &&& self.defs.wf()
        &&& self.entropy@.len() == ENTROPY_LENGTH
    }
}

/// Whether a value is a number that fits the protocol's 32-bit versions.
pub open spec fn is_u32_number(v: Value) -> bool {
    v is Number && 0 <= v->Number_0 <= u32::MAX
}

/// The first conversion failure of an object's entries, checked in the
/// fixed field order, or `None` when every field converts.
pub open spec fn conversion_check_entries(s: Seq<(Seq<char>, Value)>) -> Option<ConversionError> {
    let pv = lookup(s, "protocolVersion"@);
    let sc = lookup(s, "$schema"@);
    let ver = lookup(s, "version"@);
    let owner = lookup(s, "ownerId"@);
    let id = lookup(s, "$id"@);
    let docs = lookup(s, "documents"@);
    let defs = lookup(s, "$defs"@);
    let ent = lookup(s, "entropy"@);
    if pv is None {
        Some(ConversionError::MissingField(ContractField::ProtocolVersion))
    } else if !is_u32_number(pv->0) {
        Some(ConversionError::MistypedField(ContractField::ProtocolVersion))
    } else if !(sc is None || sc->0 is Text) {
        Some(ConversionError::MistypedField(ContractField::SchemaUri))
    } else if ver is None {
        Some(ConversionError::MissingField(ContractField::Version))
    } else if !is_u32_number(ver->0) {
        Some(ConversionError::MistypedField(ContractField::Version))
    } else if owner is None {
        Some(ConversionError::MissingField(ContractField::OwnerId))
    } else if !is_binary(owner->0, IDENTIFIER_LENGTH as int) {
        Some(ConversionError::MistypedField(ContractField::OwnerId))
    } else if id is None {
        Some(ConversionError::MissingField(ContractField::Id))
    } else if !is_binary(id->0, IDENTIFIER_LENGTH as int) {
        Some(ConversionError::MistypedField(ContractField::Id))
    } else if docs is None {
        Some(ConversionError::MissingField(ContractField::Documents))
    } else if !(docs->0 is Object) {
        Some(ConversionError::MistypedField(ContractField::Documents))
    } else if !(defs is None || defs->0 is Object) {
        Some(ConversionError::MistypedField(ContractField::Definitions))
    } else if !(ent is None || is_binary(ent->0, ENTROPY_LENGTH as int)) {
        Some(ConversionError::MistypedField(ContractField::Entropy))
    } else {
        None
    }
}

/// How a converted contract's fields are determined by the entries of the
/// object it was read from.
pub open spec fn contract_matches_entries(c: DataContract, s: Seq<(Seq<char>, Value)>) -> bool {
    &&& (match lookup(s, "protocolVersion"@) {
        Some(v) => v is Number && c.protocol_version as i64 == v->Number_0,
        None => false,
    })
    &&& (match lookup(s, "$schema"@) {
        Some(v) => v is Text && c.schema@ == v->Text_0@,
        None => c.schema@ == SCHEMA@,
    })
    &&& (match lookup(s, "version"@) {
        Some(v) => v is Number && c.version as i64 == v->Number_0,
        None => false,
    })
    &&& (match lookup(s, "ownerId"@) {
        Some(v) => is_binary(v, IDENTIFIER_LENGTH as int) && c.owner_id@ == binary_view(v),
        None => false,
    })
    &&& (match lookup(s, "$id"@) {
        Some(v) => is_binary(v, IDENTIFIER_LENGTH as int) && c.id@ == binary_view(v),
        None => false,
    })
    &&& (match lookup(s, "documents"@) {
        Some(v) => v is Object && c.documents@ == normalize_entries(entries_view(v->Object_0@)),
        None => false,
    })
    &&& (match lookup(s, "$defs"@) {
        Some(v) => v is Object && c.defs@ == normalize_entries(entries_view(v->Object_0@)),
        None => c.defs@ == Seq::<(Seq<char>, Value)>::empty(),
    })
    &&& (match lookup(s, "entropy"@) {
        Some(v) => is_binary(v, ENTROPY_LENGTH as int) && c.entropy@ == binary_view(v),
        None => c.entropy@ == spec_zero_entropy(),
    })
    &&& c.wf()
}

/// What conversion returns for an object with the entries `s`: the exact
/// error of the first failing field, or a contract every field of which is
/// pinned by the entries.
pub open spec fn conversion_entries_post(
    s: Seq<(Seq<char>, Value)>,
    r: Result<DataContract, ProtocolError>,
) -> bool {
    match conversion_check_entries(s) {
        Some(e) => r == Err::<DataContract, ProtocolError>(ProtocolError::Conversion(e)),
        None => r matches Ok(c) && contract_matches_entries(c, s),
    }
}

/// What conversion returns for an arbitrary raw value.
pub open spec fn conversion_post(raw: Value, r: Result<DataContract, ProtocolError>) -> bool {
    if raw is Object {
        conversion_entries_post(entries_view(raw->Object_0@), r)
    } else {
        r == Err::<DataContract, ProtocolError>(
            ProtocolError::Conversion(ConversionError::NotAnObject),
        )
    }
}

/// The eight field names are pairwise distinct.
proof fn lemma_field_keys_distinct()
    ensures
        "protocolVersion"@ != "$schema"@,
        "protocolVersion"@ != "version"@,
        "protocolVersion"@ != "ownerId"@,
        "protocolVersion"@ != "$id"@,
        "protocolVersion"@ != "documents"@,
        "protocolVersion"@ != "$defs"@,
        "protocolVersion"@ != "entropy"@,
        "$schema"@ != "version"@,
        "$schema"@ != "ownerId"@,
        "$schema"@ != "$id"@,
        "$schema"@ != "documents"@,
        "$schema"@ != "$defs"@,
        "$schema"@ != "entropy"@,
        "version"@ != "ownerId"@,
        "version"@ != "$id"@,
        "version"@ != "documents"@,
        "version"@ != "$defs"@,
        "version"@ != "entropy"@,
        "ownerId"@ != "$id"@,
        "ownerId"@ != "documents"@,
        "ownerId"@ != "$defs"@,
        "ownerId"@ != "entropy"@,
        "$id"@ != "documents"@,
        "$id"@ != "$defs"@,
        "$id"@ != "entropy"@,
        "documents"@ != "$defs"@,
        "documents"@ != "entropy"@,
        "$defs"@ != "entropy"@,
{
    reveal_strlit("protocolVersion");
    reveal_strlit("$schema");
    reveal_strlit("version");
    reveal_strlit("ownerId");
    reveal_strlit("$id");
    reveal_strlit("documents");
    reveal_strlit("$defs");
    reveal_strlit("entropy");
    assert("protocolVersion"@.len() == 15);
    assert("$schema"@.len() == 7);
    assert("version"@.len() == 7);
    assert("ownerId"@.len() == 7);
    assert("$id"@.len() == 3);
    assert("documents"@.len() == 9);
    assert("$defs"@.len() == 5);
    assert("entropy"@.len() == 7);
    assert("$schema"@[0] == '$');
    assert("version"@[0] == 'v');
    assert("ownerId"@[0] == 'o');
    assert("entropy"@[0] == 'e');
    assert("$schema"@[1] == 's');
    assert("$defs"@[1] == 'd');
    assert("$id"@[1] == 'i');
}

/// Read an array of in-range numbers as a byte vector of exactly `n` bytes.
fn decode_binary(v: &Value, n: usize) -> (r: Option<Vec<u8>>)
    ensures
        match r {
            Some(b) => is_binary(*v, n as int) && b@ == binary_view(*v),
            None => !is_binary(*v, n as int),
        },
{
    let items = match v {
        Value::Array(items) => items,
        _ => {
            return None;
        },
    };
    if items.len() != n {
        return None;
    }
    let mut out: Vec<u8> = Vec::new();
    let mut i: usize = 0;
    while i < items.len()
        invariant
            0 <= i <= items@.len(),
            items@.len() == n,
            v is Array && v->Array_0@ == items@,
            out@.len() == i,
            forall|j: int|
                0 <= j < i ==> (#[trigger] items@[j]) is Number && 0 <= items@[j]->Number_0 < 256,
            forall|j: int| 0 <= j < i ==> out@[j] == items@[j]->Number_0 as u8,
        decreases items@.len() - i,
    {
        match &items[i] {
            Value::Number(x) => {
                if *x < 0 || *x > 255 {
                    return None;
                }
                out.push(*x as u8);
            },
            _ => {
                return None;
            },
        }
        i = i + 1;
    }
    proof {
        assert(out@ =~= binary_view(*v));
    }
    Some(out)
}

impl DataContract {
    /// Convert a generic object into a contract. Total: every required
    /// field present and well-typed maps onto the corresponding contract
    /// field, and a missing or mistyped field fails with an error naming
    /// it. No validation happens here; the factory gates validation.
    pub fn from_raw_object(raw: Value) -> (r: Result<DataContract, ProtocolError>)
        ensures
            conversion_post(raw, r),
    {
        let mut pairs = match raw {
            Value::Object(pairs) => pairs,
            _ => {
                return Err(ProtocolError::Conversion(ConversionError::NotAnObject));
            },
        };
        let ghost orig = pairs@;
        let ghost full = entries_view(orig);
        let pv_key: String = "protocolVersion".to_owned();
        let sc_key: String = "$schema".to_owned();
        let ver_key: String = "version".to_owned();
        let owner_key: String = "ownerId".to_owned();
        let id_key: String = "$id".to_owned();
        let docs_key: String = "documents".to_owned();
        let defs_key: String = "$defs".to_owned();
        let ent_key: String = "entropy".to_owned();
        let mut pv_slot: Option<Value> = None;
        let mut sc_slot: Option<Value> = None;
        let mut ver_slot: Option<Value> = None;
        let mut owner_slot: Option<Value> = None;
        let mut id_slot: Option<Value> = None;
        let mut docs_slot: Option<Value> = None;
        let mut defs_slot: Option<Value> = None;
        let mut ent_slot: Option<Value> = None;
        proof {
            assert(full.skip(full.len() as int) =~= Seq::<(Seq<char>, Value)>::empty());
        }
        while pairs.len() > 0
            invariant
                full == entries_view(orig),
                pairs@.len() <= orig.len(),
                pairs@ == orig.take(pairs@.len() as int),
                pv_key@ == "protocolVersion"@,
                sc_key@ == "$schema"@,
                ver_key@ == "version"@,
                owner_key@ == "ownerId"@,
                id_key@ == "$id"@,
                docs_key@ == "documents"@,
                defs_key@ == "$defs"@,
                ent_key@ == "entropy"@,
                pv_slot == lookup(full.skip(pairs@.len() as int), "protocolVersion"@),
                sc_slot == lookup(full.skip(pairs@.len() as int), "$schema"@),
                ver_slot == lookup(full.skip(pairs@.len() as int), "version"@),
                owner_slot == lookup(full.skip(pairs@.len() as int), "ownerId"@),
                id_slot == lookup(full.skip(pairs@.len() as int), "$id"@),
                docs_slot == lookup(full.skip(pairs@.len() as int), "documents"@),
                defs_slot == lookup(full.skip(pairs@.len() as int), "$defs"@),
                ent_slot == lookup(full.skip(pairs@.len() as int), "entropy"@),
            decreases pairs@.len(),
        {
            let ghost n = pairs@.len() - 1;
            let popped = pairs.pop();
            let (k, v) = match popped {
                Some(p) => p,
                None => {
                    proof {
                        assert(false);
                    }
                    return Err(ProtocolError::Conversion(ConversionError::NotAnObject));
                },
            };
            proof {
                lemma_field_keys_distinct();
                assert((k, v) == orig[n]);
                assert(full[n] == (orig[n].0@, orig[n].1));
                assert(full.skip(n)[0] == full[n]);
                assert(full.skip(n).skip(1) =~= full.skip(n + 1));
            }
            if pv_slot.is_none() && k == pv_key {
                pv_slot = Some(v);
            } else if sc_slot.is_none() && k == sc_key {
                sc_slot = Some(v);
            } else if ver_slot.is_none() && k == ver_key {
                ver_slot = Some(v);
            } else if owner_slot.is_none() && k == owner_key {
                owner_slot = Some(v);
            } else if id_slot.is_none() && k == id_key {
                id_slot = Some(v);
            } else if docs_slot.is_none() && k == docs_key {
                docs_slot = Some(v);
            } else if defs_slot.is_none() && k == defs_key {
                defs_slot = Some(v);
            } else if ent_slot.is_none() && k == ent_key {
                ent_slot = Some(v);
            }
        }
        proof {
            assert(full.skip(0) =~= full);
        }
        let pv_val = match pv_slot {
            Some(v) => v,
            None => {
                return Err(
                    ProtocolError::Conversion(
                        ConversionError::MissingField(ContractField::ProtocolVersion),
                    ),
                );
            },
        };
        let protocol_version: u32 = match pv_val {
            Value::Number(x) => {
                if x < 0 || x > u32::MAX as i64 {
                    return Err(
                        ProtocolError::Conversion(
                            ConversionError::MistypedField(ContractField::ProtocolVersion),
                        ),
                    );
                }
                x as u32
            },
            _ => {
                return Err(
                    ProtocolError::Conversion(
                        ConversionError::MistypedField(ContractField::ProtocolVersion),
                    ),
                );
            },
        };
        let schema: String = match sc_slot {
            None => SCHEMA.to_owned(),
            Some(v) => match v {
                Value::Text(t) => t,
                _ => {
                    return Err(
                        ProtocolError::Conversion(
                            ConversionError::MistypedField(ContractField::SchemaUri),
                        ),
                    );
                },
            },
        };
        let ver_val = match ver_slot {
            Some(v) => v,
            None => {
                return Err(
                    ProtocolError::Conversion(
                        ConversionError::MissingField(ContractField::Version),
                    ),
                );
            },
        };
        let version: u32 = match ver_val {
            Value::Number(x) => {
                if x < 0 || x > u32::MAX as i64 {
                    return Err(
                        ProtocolError::Conversion(
                            ConversionError::MistypedField(ContractField::Version),
                        ),
                    );
                }
                x as u32
            },
            _ => {
                return Err(
                    ProtocolError::Conversion(
                        ConversionError::MistypedField(ContractField::Version),
                    ),
                );
            },
        };
        let owner_val = match owner_slot {
            Some(v) => v,
            None => {
                return Err(
                    ProtocolError::Conversion(
                        ConversionError::MissingField(ContractField::OwnerId),
                    ),
                );
            },
        };
        let owner_bytes = match decode_binary(&owner_val, IDENTIFIER_LENGTH) {
            Some(b) => b,
            None => {
                return Err(
                    ProtocolError::Conversion(
                        ConversionError::MistypedField(ContractField::OwnerId),
                    ),
                );
            },
        };
        let owner_id = match Identifier::from_bytes(owner_bytes.as_slice()) {
            Ok(id) => id,
            Err(_) => {
                proof {
                    assert(false);
                }
                return Err(
                    ProtocolError::Conversion(
                        ConversionError::MistypedField(ContractField::OwnerId),
                    ),
                );
            },
        };
        let id_val = match id_slot {
            Some(v) => v,
            None => {
                return Err(
                    ProtocolError::Conversion(ConversionError::MissingField(ContractField::Id)),
                );
            },
        };
        let id_bytes = match decode_binary(&id_val, IDENTIFIER_LENGTH) {
            Some(b) => b,
            None => {
                return Err(
                    ProtocolError::Conversion(ConversionError::MistypedField(ContractField::Id)),
                );
            },
        };
        let id = match Identifier::from_bytes(id_bytes.as_slice()) {
            Ok(id) => id,
            Err(_) => {
                proof {
                    assert(false);
                }
                return Err(
                    ProtocolError::Conversion(ConversionError::MistypedField(ContractField::Id)),
                );
            },
        };
        let docs_val = match docs_slot {
            Some(v) => v,
            None => {
                return Err(
                    ProtocolError::Conversion(
                        ConversionError::MissingField(ContractField::Documents),
                    ),
                );
            },
        };
        match &docs_val {
            Value::Object(_) => {},
            _ => {
                return Err(
                    ProtocolError::Conversion(
                        ConversionError::MistypedField(ContractField::Documents),
                    ),
                );
            },
        }
        let documents = match DocumentMap::normalize(docs_val) {
            Ok(m) => m,
            Err(_) => {
                proof {
                    assert(false);
                }
                return Err(
                    ProtocolError::Conversion(
                        ConversionError::MistypedField(ContractField::Documents),
                    ),
                );
            },
        };
        let defs = match defs_slot {
            None => DocumentMap::new(),
            Some(v) => {
                match &v {
                    Value::Object(_) => {},
                    _ => {
                        return Err(
                            ProtocolError::Conversion(
                                ConversionError::MistypedField(ContractField::Definitions),
                            ),
                        );
                    },
                }
                match DocumentMap::normalize(v) {
                    Ok(m) => m,
                    Err(_) => {
                        proof {
                            assert(false);
                        }
                        return Err(
                            ProtocolError::Conversion(
                                ConversionError::MistypedField(ContractField::Definitions),
                            ),
                        );
                    },
                }
            },
        };
        let entropy: Vec<u8> = match ent_slot {
            None => {
                let z: Vec<u8> = vec![0u8; ENTROPY_LENGTH];
                proof {
                    assert(z@ =~= spec_zero_entropy());
                }
                z
            },
            Some(v) => match decode_binary(&v, ENTROPY_LENGTH) {
                Some(b) => b,
                None => {
                    return Err(
                        ProtocolError::Conversion(
                            ConversionError::MistypedField(ContractField::Entropy),
                        ),
                    );
                },
            },
        };
        let contract = DataContract {
            protocol_version,
            schema,
            id,
            version,
            owner_id,
            documents,
            defs,
            entropy,
        };
        proof {
            assert(conversion_check_entries(full) is None);
            assert(contract_matches_entries(contract, full));
        }
        Ok(contract)
    }
}

/// Field-content equality of two contracts: every field reads the same,
/// byte for byte and entry for entry.
pub open spec fn contracts_agree(a: DataContract, b: DataContract) -> bool {
    &&& a.protocol_version == b.protocol_version
    &&& a.schema@ == b.schema@
    &&& a.id@ == b.id@
    &&& a.version == b.version
    &&& a.owner_id@ == b.owner_id@
    &&& a.documents@ == b.documents@
    &&& a.defs@ == b.defs@
    &&& a.entropy@ == b.entropy@
}

/// The conversion outcome is a function of the raw input alone: two runs
/// on the same input either fail with the very same error or produce
/// contracts whose fields agree. Re-running the conversion can never
/// diverge.
pub proof fn lemma_conversion_deterministic(
    raw: Value,
    r1: Result<DataContract, ProtocolError>,
    r2: Result<DataContract, ProtocolError>,
)
    requires
        conversion_post(raw, r1),
        conversion_post(raw, r2),
    ensures
        r1 is Ok <==> r2 is Ok,
        r1 is Err ==> r1 == r2,
        r1 is Ok ==> contracts_agree(r1->Ok_0, r2->Ok_0),
{
}

} // verus!
