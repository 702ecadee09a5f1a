//! Fixed-length binary identifiers and the derivation of a contract's
//! identity from its owner's identifier and fresh entropy.
//!
//! The derivation folds the owner's bytes into a 64-bit accumulator, expands
//! the accumulator into a 32-byte key stream, and combines the key stream
//! with the entropy bytes. For a fixed owner the map from entropy to
//! identifier is a bijection, so two constructions that draw different
//! entropy can never collide on an identifier; this is proved below.

use vstd::prelude::*;
use crate::errors::ProtocolError;

verus! {

/// The byte length of every identifier.
pub const IDENTIFIER_LENGTH: usize = 32;

/// The byte length of the entropy drawn for each construction.
pub const ENTROPY_LENGTH: usize = 32;

/// Seed of the derivation's accumulator.
pub const FOLD_SEED: u64 = 0xcbf2_9ce4_8422_2325;

/// Multiplier of the derivation's accumulator rounds.
pub const FOLD_PRIME: u64 = 0x100_0000_01b3;

/// One accumulator round: absorb a byte, then multiply modulo 2^64.
pub open spec fn mix(acc: u64, b: u8) -> u64 {
    ((((acc ^ (b as u64)) as int) * (FOLD_PRIME as int)) % 0x1_0000_0000_0000_0000) as u64
}

/// The accumulator after absorbing all of the owner's bytes.
pub open spec fn owner_fold(owner: Seq<u8>) -> u64
    decreases owner.len(),
{
    if owner.len() <= 0 {
        FOLD_SEED
    } else {
        mix(owner_fold(owner.drop_last()), owner.last())
    }
}

/// The accumulator after `i` further rounds of the key stream.
pub open spec fn stream_fold(owner: Seq<u8>, i: int) -> u64
    decreases i,
{
    if i <= 0 {
        owner_fold(owner)
    } else {
        mix(stream_fold(owner, i - 1), (i - 1) as u8)
    }
}

/// Byte `i` of the owner-determined key stream.
pub open spec fn key_byte(owner: Seq<u8>, i: int) -> u8 {
    ((stream_fold(owner, i + 1) >> 56) & 0xff) as u8
}

/// Byte `i` of the entropy, padded with zeros past its end.
pub open spec fn entropy_byte(entropy: Seq<u8>, i: int) -> u8 {
    if 0 <= i < entropy.len() {
        entropy[i]
    } else {
        0
    }
}

/// The identifier derived for an owner and an entropy value.
pub open spec fn contract_id(owner: Seq<u8>, entropy: Seq<u8>) -> Seq<u8> {
    Seq::new(
        IDENTIFIER_LENGTH as nat,
        |i: int| entropy_byte(entropy, i) ^ key_byte(owner, i),
    )
}

fn mix_step(acc: u64, b: u8) -> (r: u64)
    ensures
        r == mix(acc, b),
{
    let x: u64 = acc ^ (b as u64);
    proof {
        assert((x as int) * (FOLD_PRIME as int) < 0x1_0000_0000_0000_0000_0000_0000_0000_0000)
            by (nonlinear_arith)
            requires
                0 <= x <= 0xffff_ffff_ffff_ffffu64,
        ;
    }
    let wide: u128 = (x as u128) * (FOLD_PRIME as u128);
    (wide % 0x1_0000_0000_0000_0000u128) as u64
}

/// Derive a contract identifier from the owner's identifier bytes and the
/// entropy drawn for this construction. Deterministic and total: the result
/// is exactly `contract_id(owner_id@, entropy@)`.
pub fn generate_data_contract_id(owner_id: &Vec<u8>, entropy: &Vec<u8>) -> (r: Vec<u8>)
    ensures
        r@ == contract_id(owner_id@, entropy@),
{
    let mut acc: u64 = FOLD_SEED;
    let mut i: usize = 0;
    while i < owner_id.len()
        invariant
            0 <= i <= owner_id.len(),
            acc == owner_fold(owner_id@.take(i as int)),
        decreases owner_id.len() - i,
    {
        proof {
            assert(owner_id@.take(i + 1).drop_last() =~= owner_id@.take(i as int));
            assert(owner_id@.take(i + 1).last() == owner_id@[i as int]);
        }
        acc = mix_step(acc, owner_id[i]);
        i = i + 1;
    }
    proof {
        assert(owner_id@.take(owner_id@.len() as int) =~= owner_id@);
    }
    let mut out: Vec<u8> = Vec::new();
    let mut j: usize = 0;
    while j < IDENTIFIER_LENGTH
        invariant
            0 <= j <= IDENTIFIER_LENGTH,
            acc == stream_fold(owner_id@, j as int),
            out@.len() == j,
            forall|t: int|
                0 <= t < j ==> out@[t] == entropy_byte(entropy@, t) ^ key_byte(owner_id@, t),
        decreases IDENTIFIER_LENGTH - j,
    {
        acc = mix_step(acc, j as u8);
        proof {
            assert(acc == stream_fold(owner_id@, j + 1));
        }
        let kb: u8 = ((acc >> 56) & 0xff) as u8;
        proof {
            assert(((acc >> 56) & 0xff) < 256) by (bit_vector);
            assert(kb == key_byte(owner_id@, j as int));
        }
        let eb: u8 = if j < entropy.len() {
            entropy[j]
        } else {
            0
        };
        out.push(eb ^ kb);
        j = j + 1;
    }
    proof {
        assert(out@ =~= contract_id(owner_id@, entropy@));
    }
    out
}

/// For a fixed owner, distinct entropy values always derive distinct
/// identifiers: for each owner the derivation is injective in the entropy.
pub proof fn lemma_contract_id_entropy_injective(owner: Seq<u8>, e1: Seq<u8>, e2: Seq<u8>)
    requires
        e1.len() == ENTROPY_LENGTH,
        e2.len() == ENTROPY_LENGTH,
        e1 != e2,
    ensures
        contract_id(owner, e1) != contract_id(owner, e2),
{
    if forall|i: int| 0 <= i < ENTROPY_LENGTH ==> e1[i] == e2[i] {
        assert(e1 =~= e2);
    }
    let i = choose|i: int| 0 <= i < ENTROPY_LENGTH && e1[i] != e2[i];
    let b1 = e1[i];
    let b2 = e2[i];
    let k = key_byte(owner, i);
    assert(b1 != b2 ==> (b1 ^ k) != (b2 ^ k)) by (bit_vector);
    assert(contract_id(owner, e1)[i] == b1 ^ k);
    assert(contract_id(owner, e2)[i] == b2 ^ k);
}

/// A fixed-length binary identifier naming a contract or another platform
/// entity. The only way to obtain one is from exactly
/// [`IDENTIFIER_LENGTH`] bytes.
#[derive(Debug, PartialEq)]
pub struct Identifier {
    bytes: Vec<u8>,
}

impl View for Identifier {
    type V = Seq<u8>;

    closed spec fn view(&self) -> Seq<u8> {
        self.bytes@
    }
}

impl Identifier {
    /// Whether the identifier holds exactly its fixed byte length.
    pub open spec fn wf(&self) -> bool {
        self@.len() == IDENTIFIER_LENGTH
    }

    /// Build an identifier from its bytes; rejects any slice whose length
    /// is not exactly [`IDENTIFIER_LENGTH`].
    pub fn from_bytes(bytes: &[u8]) -> (r: Result<Identifier, ProtocolError>)
        ensures
            bytes@.len() == IDENTIFIER_LENGTH ==> (r matches Ok(id) && id@ == bytes@ && id.wf()),
            bytes@.len() != IDENTIFIER_LENGTH ==> r == Err::<Identifier, ProtocolError>(
                ProtocolError::InvalidIdentifier,
            ),
    {
        if bytes.len() != IDENTIFIER_LENGTH {
            return Err(ProtocolError::InvalidIdentifier);
        }
        let mut copied: Vec<u8> = Vec::new();
        let mut i: usize = 0;
        while i < bytes.len()
            invariant
                0 <= i <= bytes@.len(),
                copied@ == bytes@.take(i as int),
            decreases bytes@.len() - i,
        {
            proof {
                assert(bytes@.take(i + 1) =~= bytes@.take(i as int).push(bytes@[i as int]));
            }
            copied.push(bytes[i]);
            i = i + 1;
        }
        proof {
            assert(bytes@.take(bytes@.len() as int) =~= bytes@);
        }
        Ok(Identifier { bytes: copied })
    }

    /// The identifier's bytes, as a fresh vector.
    pub fn to_buffer(&self) -> (r: Vec<u8>)
        ensures
            r@ == self@,
    {
        let mut copied: Vec<u8> = Vec::new();
        let mut i: usize = 0;
        while i < self.bytes.len()
            invariant
                0 <= i <= self@.len(),
                copied@ == self@.take(i as int),
            decreases self@.len() - i,
        {
            proof {
                assert(self@.take(i + 1) =~= self@.take(i as int).push(self@[i as int]));
            }
            copied.push(self.bytes[i]);
            i = i + 1;
        }
        proof {
            assert(self@.take(self@.len() as int) =~= self@);
        }
        copied
    }
}

} // verus!
