//! Transfer invoker: the boundary to the external asset ledger.
//!
//! The library never moves value itself. Each operation yields a
//! `TransferIntent` naming the source, destination, amount and authorizer;
//! the surrounding runtime hands it to the external ledger and reports the
//! outcome back. When the authorizer is a derived authority, the intent
//! carries the exact derivation triple so the ledger can independently
//! re-derive and accept the proof — the invoker reconstructs, never forges.

use vstd::prelude::*;

use crate::authority;
use crate::authority::derived_id;
use crate::authority::MAX_TAG_LEN;
use crate::errors::VaultError;
use crate::identity::Identity;

verus! {

/// What the external ledger reported back for an issued transfer.
#[derive(Clone, Copy, Debug, PartialEq, Eq, Structural)]
pub enum TransferOutcome {
    /// The ledger moved the funds.
    Completed,
    /// The ledger refused: the source held less than the amount.
    InsufficientExternalFunds,
}

/// The exact derivation triple a derived authority re-derives from.
#[derive(Clone, Debug)]
pub struct DerivedRef {
    pub tag: Vec<u8>,
    pub owner: Identity,
    pub program: Identity,
    pub bump: u8,
}

/// Who authorizes a transfer: a signing identity, or a derived authority
/// reconstructed from its derivation triple.
#[derive(Clone, Debug)]
pub enum Authorizer {
    Signer(Identity),
    Derived(DerivedRef),
}

/// A transfer for the external ledger: move `amount` from `from` to `to`,
/// authorized by `authorizer`.
#[derive(Clone, Debug)]
pub struct TransferIntent {
    pub from: Identity,
    pub to: Identity,
    pub amount: u64,
    pub authorizer: Authorizer,
}

/// Mathematical model of an authorizer.
pub ghost enum AuthorizerModel {
    Signer(Seq<u8>),
    Derived { tag: Seq<u8>, owner: Seq<u8>, program: Seq<u8>, bump: u8 },
}

/// Mathematical model of a transfer intent.
pub ghost struct IntentModel {
    pub from: Seq<u8>,
    pub to: Seq<u8>,
    pub amount: u64,
    pub authorizer: AuthorizerModel,
}

impl View for Authorizer {
    type V = AuthorizerModel;

    open spec fn view(&self) -> AuthorizerModel {
        match self {
            Authorizer::Signer(id) => AuthorizerModel::Signer(id@),
            Authorizer::Derived(d) => AuthorizerModel::Derived {
                tag: d.tag@,
                owner: d.owner@,
                program: d.program@,
                bump: d.bump,
            },
        }
    }
}

impl View for TransferIntent {
    type V = IntentModel;

    open spec fn view(&self) -> IntentModel {
        IntentModel {
            from: self.from@,
            to: self.to@,
            amount: self.amount,
            authorizer: self.authorizer@,
        }
    }
}

/// The identity an authorizer resolves to: a signer is itself; a derived
/// authority resolves to its accepted derivation, if any.
pub open spec fn spec_resolve(a: AuthorizerModel) -> Option<Seq<u8>> {
    match a {
        AuthorizerModel::Signer(id) => Some(id),
        AuthorizerModel::Derived { tag, owner, program, bump } => if tag.len() <= MAX_TAG_LEN {
            derived_id(tag, owner, program, bump)
        } else {
            None
        },
    }
}

/// An intent is well-authorized when its proof resolves to the very account
/// the funds leave.
pub open spec fn spec_intent_authorized(intent: IntentModel) -> bool {
    spec_resolve(intent.authorizer) == Some(intent.from)
}

/// Reconstructs the identity behind an authorizer.
///
/// A signer proves itself. A derived authority is re-derived from its exact
/// triple; a refused derivation, or a tag too wide to derive from, fails
/// with `AuthorityMismatch`.
pub fn resolve_authorizer(a: &Authorizer) -> (r: Result<Identity, VaultError>)
    ensures
        match spec_resolve(a@) {
            Some(id) => r matches Ok(got) && got@ == id,
            None => r == Err::<Identity, VaultError>(VaultError::AuthorityMismatch),
        },
{
    match a {
        Authorizer::Signer(id) => Ok(*id),
        Authorizer::Derived(d) => {
            if d.tag.len() > MAX_TAG_LEN {
                return Err(VaultError::AuthorityMismatch);
            }
            match authority::derive(&d.tag, &d.owner, &d.program, d.bump) {
                Some(id) => Ok(id),
                None => Err(VaultError::AuthorityMismatch),
            }
        },
    }
}

/// Validates an intent before it is issued: its authorizer must resolve to
/// the account the funds leave. An unresolvable proof fails with
/// `AuthorityMismatch`; a proof for some other account with `Unauthorized`.
pub fn authorize_intent(intent: &TransferIntent) -> (r: Result<(), VaultError>)
    ensures
        spec_resolve(intent@.authorizer) is None ==> r == Err::<(), VaultError>(
            VaultError::AuthorityMismatch,
        ),
        (spec_resolve(intent@.authorizer) matches Some(id) ==> (if id == intent@.from {
            r == Ok::<(), VaultError>(())
        } else {
            r == Err::<(), VaultError>(VaultError::Unauthorized)
        })),
        r is Ok <==> spec_intent_authorized(intent@),
{
    let resolved = match resolve_authorizer(&intent.authorizer) {
        Ok(id) => id,
        Err(e) => {
            return Err(e);
        },
    };
    if resolved.equals(&intent.from) {
        Ok(())
    } else {
        Err(VaultError::Unauthorized)
    }
}

/// Maps the external ledger's report onto the vault's error taxonomy: a
/// completed transfer is success, and refused external funds surface
/// verbatim as `InsufficientFunds`.
pub fn settle_outcome(outcome: TransferOutcome) -> (r: Result<(), VaultError>)
    ensures
        outcome is Completed ==> r == Ok::<(), VaultError>(()),
        outcome is InsufficientExternalFunds ==> r == Err::<(), VaultError>(
            VaultError::InsufficientFunds,
        ),
{
    match outcome {
        TransferOutcome::Completed => Ok(()),
        TransferOutcome::InsufficientExternalFunds => Err(VaultError::InsufficientFunds),
    }
}

} // verus!
