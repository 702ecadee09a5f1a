use dpp::identifier::{generate_data_contract_id, Identifier};
use dpp::errors::ProtocolError;

fn entropy_from_seed(seed: u64) -> Vec<u8> {
    // A small deterministic generator, good enough to vary test inputs.
    let mut state = seed.wrapping_mul(6364136223846793005).wrapping_add(1442695040888963407);
    let mut out = Vec::new();
    for _ in 0..32 {
        state = state.wrapping_mul(6364136223846793005).wrapping_add(1442695040888963407);
        out.push((state >> 33) as u8);
    }
    out
}

#[test]
fn identifier_from_bytes_roundtrip() {
    let bytes = vec![7u8; 32];
    let id = Identifier::from_bytes(&bytes).unwrap();
    assert_eq!(id.to_buffer(), bytes);
}

#[test]
fn identifier_rejects_wrong_length() {
    assert_eq!(
        Identifier::from_bytes(&[1u8; 31]),
        Err(ProtocolError::InvalidIdentifier)
    );
    assert_eq!(
        Identifier::from_bytes(&[1u8; 33]),
        Err(ProtocolError::InvalidIdentifier)
    );
    assert_eq!(
        Identifier::from_bytes(&[]),
        Err(ProtocolError::InvalidIdentifier)
    );
}

#[test]
fn derivation_is_deterministic() {
    let owner = vec![3u8; 32];
    let entropy = entropy_from_seed(42);
    let id1 = generate_data_contract_id(&owner, &entropy);
    let id2 = generate_data_contract_id(&owner, &entropy);
    assert_eq!(id1, id2);
    assert_eq!(id1.len(), 32);
}

#[test]
fn derivation_no_collisions_across_sample() {
    let owner = vec![9u8; 32];
    let mut seen: Vec<Vec<u8>> = Vec::new();
    for seed in 0..200u64 {
        let id = generate_data_contract_id(&owner, &entropy_from_seed(seed));
        assert!(!seen.contains(&id), "collision for seed {}", seed);
        seen.push(id);
    }
}

#[test]
fn derivation_combines_entropy_bytewise() {
    // The identifier is the owner's key stream combined with the entropy,
    // so the byte-wise difference of two identifiers for one owner equals
    // the byte-wise difference of their entropy values.
    let owner = vec![0xabu8; 32];
    let e1 = entropy_from_seed(1);
    let e2 = entropy_from_seed(2);
    let id1 = generate_data_contract_id(&owner, &e1);
    let id2 = generate_data_contract_id(&owner, &e2);
    for i in 0..32 {
        assert_eq!(id1[i] ^ id2[i], e1[i] ^ e2[i]);
    }
}

#[test]
fn derivation_distinct_owners_usually_differ() {
    let entropy = entropy_from_seed(7);
    let id1 = generate_data_contract_id(&vec![1u8; 32], &entropy);
    let id2 = generate_data_contract_id(&vec![2u8; 32], &entropy);
    assert_ne!(id1, id2);
}
