//! Derived authority resolver: computes a deterministic authority identity
//! from a domain tag, an owner identity and a bump disambiguator, and checks
//! caller-supplied identities against that derivation.
//!
//! The derived identity is guaranteed to have no corresponding private key:
//! the external derivation refuses any candidate that lands on the ed25519
//! curve, and the bump is chosen — searching downward from the top of the
//! bump space — as the first value whose candidate is accepted.

use vstd::prelude::*;

use crate::identity::Identity;

verus! {

/// Widest domain tag the derivation accepts, in bytes.
pub const MAX_TAG_LEN: usize = 32;

/// The identity derived from a `(domain_tag, owner, program, bump)` tuple,
/// or `None` where the candidate lands on the ed25519 curve and is refused.
/// It stands for what the external derivation computes, a function of its
/// arguments alone.
pub uninterp spec fn derived_id(tag: Seq<u8>, owner: Seq<u8>, program: Seq<u8>, bump: u8) -> Option<
    Seq<u8>,
>;

/// Derives the authority identity for `(tag, owner, bump)` under a program.
///
/// Relies on `solana_program::pubkey::Pubkey::create_program_address`: for
/// seeds within the documented bounds (at most 16 seeds of at most 32 bytes
/// each — guaranteed here by the tag bound, the fixed 32-byte owner and the
/// single bump byte) it returns the program derived address, a 32-byte
/// identity computed from the seeds and the program id alone, or refuses
/// seeds whose candidate is an ed25519 curve point.
#[verifier::external_body]
pub fn derive(tag: &Vec<u8>, owner: &Identity, program: &Identity, bump: u8) -> (r: Option<
    Identity,
>)
    requires
        tag@.len() <= MAX_TAG_LEN,
    ensures
        r is Some <==> derived_id(tag@, owner@, program@, bump) is Some,
        (r matches Some(id) ==> derived_id(tag@, owner@, program@, bump) == Some(id@)),
{
    let seeds: &[&[u8]] = &[tag.as_slice(), &owner.bytes, &[bump]];
    let program_id = solana_program::pubkey::Pubkey::new_from_array(program.bytes);
    match solana_program::pubkey::Pubkey::create_program_address(seeds, &program_id) {
        Ok(key) => Some(Identity { bytes: key.to_bytes() }),
        Err(_) => None,
    }
}

/// The canonical bump at or below `b`, searching downward and stopping at 1.
pub open spec fn spec_canonical_from(tag: Seq<u8>, owner: Seq<u8>, program: Seq<u8>, b: u8) -> Option<
    u8,
>
    recommends
        b >= 1,
    decreases b,
{
    if derived_id(tag, owner, program, b) is Some {
        Some(b)
    } else if b <= 1 {
        None
    } else {
        spec_canonical_from(tag, owner, program, (b - 1) as u8)
    }
}

/// The canonical bump: the first value from the top of the bump space whose
/// derivation is accepted.
pub open spec fn spec_canonical_bump(tag: Seq<u8>, owner: Seq<u8>, program: Seq<u8>) -> Option<u8> {
    spec_canonical_from(tag, owner, program, 255)
}

/// Finds the canonical bump for an owner, with its derived authority.
pub fn find_canonical_bump(tag: &Vec<u8>, owner: &Identity, program: &Identity) -> (r: Option<
    (Identity, u8),
>)
    requires
        tag@.len() <= MAX_TAG_LEN,
    ensures
        (r matches Some(p) ==> spec_canonical_bump(tag@, owner@, program@) == Some(p.1)
            && derived_id(tag@, owner@, program@, p.1) == Some(p.0@)),
        r is None ==> spec_canonical_bump(tag@, owner@, program@) is None,
{
    let mut bump: u8 = 255;
    loop
        invariant
            tag@.len() <= MAX_TAG_LEN,
            1 <= bump <= 255,
            spec_canonical_bump(tag@, owner@, program@) == spec_canonical_from(
                tag@,
                owner@,
                program@,
                bump,
            ),
        decreases bump,
    {
        match derive(tag, owner, program, bump) {
            Some(id) => {
                return Some((id, bump));
            },
            None => {},
        }
        if bump == 1 {
            return None;
        }
        bump = bump - 1;
    }
}

/// Checks a caller-supplied identity against the expected derivation.
pub fn verify(expected: &Identity, tag: &Vec<u8>, owner: &Identity, program: &Identity, bump: u8) -> (r:
    bool)
    requires
        tag@.len() <= MAX_TAG_LEN,
    ensures
        r == (derived_id(tag@, owner@, program@, bump) == Some(expected@)),
{
    match derive(tag, owner, program, bump) {
        Some(id) => id.equals(expected),
        None => false,
    }
}

/// Law: derivation is deterministic — the same domain tag, owner, program
/// and bump always yield the same authority identity.
pub proof fn lemma_derive_deterministic(
    tag: Seq<u8>,
    owner: Seq<u8>,
    program: Seq<u8>,
    bump: u8,
    r1: Option<Seq<u8>>,
    r2: Option<Seq<u8>>,
)
    requires
        r1 == derived_id(tag, owner, program, bump),
        r2 == derived_id(tag, owner, program, bump),
    ensures
        r1 == r2,
{
}

/// The canonical bump is the first accepted value from the top: every bump
/// above it is refused, and `None` means every bump down to 1 is refused.
pub proof fn lemma_canonical_bump_first(tag: Seq<u8>, owner: Seq<u8>, program: Seq<u8>)
    ensures
        (spec_canonical_bump(tag, owner, program) matches Some(b) ==> 1 <= b && derived_id(
            tag,
            owner,
            program,
            b,
        ) is Some && forall|b2: u8| b < b2 ==> derived_id(tag, owner, program, b2) is None),
        spec_canonical_bump(tag, owner, program) is None ==> forall|b2: u8|
            1 <= b2 ==> derived_id(tag, owner, program, b2) is None,
{
    lemma_canonical_from_first(tag, owner, program, 255);
}

proof fn lemma_canonical_from_first(tag: Seq<u8>, owner: Seq<u8>, program: Seq<u8>, b: u8)
    requires
        b >= 1,
    ensures
        (spec_canonical_from(tag, owner, program, b) matches Some(c) ==> 1 <= c <= b && derived_id(
            tag,
            owner,
            program,
            c,
        ) is Some && forall|b2: u8| c < b2 <= b ==> derived_id(tag, owner, program, b2) is None),
        spec_canonical_from(tag, owner, program, b) is None ==> forall|b2: u8|
            1 <= b2 <= b ==> derived_id(tag, owner, program, b2) is None,
    decreases b,
{
    if derived_id(tag, owner, program, b) is Some {
    } else if b > 1 {
        lemma_canonical_from_first(tag, owner, program, (b - 1) as u8);
    }
}

} // verus!
