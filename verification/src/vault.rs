//! Vault lifecycle controller: orchestrates create, deposit, withdraw and
//! close, enforcing authority and balance invariants at every step.
//!
//! A vault's storage key is its owner's canonical derived authority, so the
//! ledger account holding the funds is owned by an identity with no private
//! key. Deposits are authorized by the depositor alone — anyone may fund a
//! vault — while withdrawals and closes are authorized by the derived
//! authority: they demand the exact derivation, and a caller-supplied bump
//! that is not the canonical one is refused outright. Validation always
//! precedes the transfer handed back to the ledger, and a failed operation
//! leaves the store untouched.

use vstd::prelude::*;

use crate::authority::derived_id;
use crate::authority::find_canonical_bump;
use crate::authority::spec_canonical_bump;
use crate::authority::MAX_TAG_LEN;
use crate::codec::read_state;
use crate::codec::record_bytes;
use crate::codec::spec_balance_of;
use crate::codec::spec_initialized_of;
use crate::codec::spec_owner_of;
use crate::codec::spec_record_bytes;
use crate::codec::spec_write_state_bytes;
use crate::codec::write_state;
use crate::codec::VaultState;
use crate::codec::STATE_LEN;
use crate::errors::VaultError;
use crate::identity::Identity;
use crate::invoker::Authorizer;
use crate::invoker::AuthorizerModel;
use crate::invoker::DerivedRef;
use crate::invoker::IntentModel;
use crate::invoker::TransferIntent;
use crate::store::VaultStore;

verus! {

/// The storage key of an owner's vault: the canonical derived authority.
pub open spec fn spec_vault_key(tag: Seq<u8>, owner: Seq<u8>, program: Seq<u8>) -> Option<Seq<u8>> {
    match spec_canonical_bump(tag, owner, program) {
        Some(b) => derived_id(tag, owner, program, b),
        None => None,
    }
}

/// What `initialize` does: allocates a zeroed record for the owner at the
/// canonical derived key. An occupied key fails with `AlreadyInitialized`;
/// an owner with no derivable authority fails with `AuthorityMismatch`.
pub open spec fn spec_initialize(
    store: Map<Seq<u8>, Seq<u8>>,
    tag: Seq<u8>,
    program: Seq<u8>,
    owner: Seq<u8>,
) -> Result<(Map<Seq<u8>, Seq<u8>>, u8), VaultError> {
    match spec_canonical_bump(tag, owner, program) {
        None => Err(VaultError::AuthorityMismatch),
        Some(bump) => match derived_id(tag, owner, program, bump) {
            None => Err(VaultError::AuthorityMismatch),
            Some(key) => if store.contains_key(key) {
                Err(VaultError::AlreadyInitialized)
            } else {
                Ok((store.insert(key, spec_record_bytes(0, owner, true)), bump))
            },
        },
    }
}

/// What `initialize_if_needed` does: as `spec_initialize`, but an occupied
/// key succeeds as a no-op — provided the record there matches the expected
/// layout, else `CorruptState`.
pub open spec fn spec_initialize_if_needed(
    store: Map<Seq<u8>, Seq<u8>>,
    tag: Seq<u8>,
    program: Seq<u8>,
    owner: Seq<u8>,
) -> Result<(Map<Seq<u8>, Seq<u8>>, u8), VaultError> {
    match spec_canonical_bump(tag, owner, program) {
        None => Err(VaultError::AuthorityMismatch),
        Some(bump) => match derived_id(tag, owner, program, bump) {
            None => Err(VaultError::AuthorityMismatch),
            Some(key) => if store.contains_key(key) {
                if store[key].len() < STATE_LEN {
                    Err(VaultError::CorruptState)
                } else {
                    Ok((store, bump))
                }
            } else {
                Ok((store.insert(key, spec_record_bytes(0, owner, true)), bump))
            },
        },
    }
}

/// What `deposit` does: raises the vault's balance by the amount with
/// non-wrapping arithmetic and yields the funding transfer, authorized by
/// the depositor's own identity. An absent or uninitialized vault fails
/// with `NotFound`, a short record with `CorruptState`, and a sum past the
/// 64-bit range with `BalanceOverflow`.
pub open spec fn spec_deposit(
    store: Map<Seq<u8>, Seq<u8>>,
    tag: Seq<u8>,
    program: Seq<u8>,
    owner: Seq<u8>,
    source: Seq<u8>,
    amount: u64,
) -> Result<(Map<Seq<u8>, Seq<u8>>, IntentModel), VaultError> {
    match spec_vault_key(tag, owner, program) {
        None => Err(VaultError::NotFound),
        Some(key) => if !store.contains_key(key) {
            Err(VaultError::NotFound)
        } else {
            let data = store[key];
            if data.len() < STATE_LEN {
                Err(VaultError::CorruptState)
            } else if !spec_initialized_of(data) {
                Err(VaultError::NotFound)
            } else if spec_balance_of(data) + amount > u64::MAX {
                Err(VaultError::BalanceOverflow)
            } else {
                Ok(
                    (
                        store.insert(
                            key,
                            spec_write_state_bytes(
                                data,
                                (spec_balance_of(data) + amount) as u64,
                                spec_owner_of(data),
                                true,
                            ),
                        ),
                        IntentModel {
                            from: source,
                            to: key,
                            amount,
                            authorizer: AuthorizerModel::Signer(source),
                        },
                    ),
                )
            }
        },
    }
}

/// What `withdraw` does: checks the caller-supplied bump against the
/// canonical derivation (`AuthorityMismatch` otherwise), the signer against
/// the registered owner (`Unauthorized` otherwise) and the balance against
/// the amount (`InsufficientFunds` otherwise), then lowers the balance and
/// yields the payout transfer, authorized by the derived authority's exact
/// derivation triple.
pub open spec fn spec_withdraw(
    store: Map<Seq<u8>, Seq<u8>>,
    tag: Seq<u8>,
    program: Seq<u8>,
    signer: Seq<u8>,
    bump: u8,
    destination: Seq<u8>,
    amount: u64,
) -> Result<(Map<Seq<u8>, Seq<u8>>, IntentModel), VaultError> {
    if spec_canonical_bump(tag, signer, program) != Some(bump) {
        Err(VaultError::AuthorityMismatch)
    } else {
        match derived_id(tag, signer, program, bump) {
            None => Err(VaultError::AuthorityMismatch),
            Some(key) => if !store.contains_key(key) {
                Err(VaultError::NotFound)
            } else {
                let data = store[key];
                if data.len() < STATE_LEN {
                    Err(VaultError::CorruptState)
                } else if !spec_initialized_of(data) {
                    Err(VaultError::NotFound)
                } else if spec_owner_of(data) != signer {
                    Err(VaultError::Unauthorized)
                } else if spec_balance_of(data) < amount {
                    Err(VaultError::InsufficientFunds)
                } else {
                    Ok(
                        (
                            store.insert(
                                key,
                                spec_write_state_bytes(
                                    data,
                                    (spec_balance_of(data) - amount) as u64,
                                    spec_owner_of(data),
                                    true,
                                ),
                            ),
                            IntentModel {
                                from: key,
                                to: destination,
                                amount,
                                authorizer: AuthorizerModel::Derived {
                                    tag,
                                    owner: signer,
                                    program,
                                    bump,
                                },
                            },
                        ),
                    )
                }
            },
        }
    }
}

/// What `close` does: after the same authority and owner checks as a
/// withdrawal, pays the entire remaining balance to the recipient and
/// deletes the vault record; the key then holds nothing, so any further
/// operation on it fails with `NotFound`.
pub open spec fn spec_close(
    store: Map<Seq<u8>, Seq<u8>>,
    tag: Seq<u8>,
    program: Seq<u8>,
    signer: Seq<u8>,
    bump: u8,
    recipient: Seq<u8>,
) -> Result<(Map<Seq<u8>, Seq<u8>>, IntentModel), VaultError> {
    if spec_canonical_bump(tag, signer, program) != Some(bump) {
        Err(VaultError::AuthorityMismatch)
    } else {
        match derived_id(tag, signer, program, bump) {
            None => Err(VaultError::AuthorityMismatch),
            Some(key) => if !store.contains_key(key) {
                Err(VaultError::NotFound)
            } else {
                let data = store[key];
                if data.len() < STATE_LEN {
                    Err(VaultError::CorruptState)
                } else if !spec_initialized_of(data) {
                    Err(VaultError::NotFound)
                } else if spec_owner_of(data) != signer {
                    Err(VaultError::Unauthorized)
                } else {
                    Ok(
                        (
                            store.remove(key),
                            IntentModel {
                                from: key,
                                to: recipient,
                                amount: spec_balance_of(data),
                                authorizer: AuthorizerModel::Derived {
                                    tag,
                                    owner: signer,
                                    program,
                                    bump,
                                },
                            },
                        ),
                    )
                }
            },
        }
    }
}

/// Copies a record buffer byte for byte.
fn copy_bytes(src: &Vec<u8>) -> (r: Vec<u8>)
    ensures
        r@ == src@,
{
    let n = src.len();
    let mut out: Vec<u8> = Vec::new();
    let mut i: usize = 0;
    while i < n
        invariant
            i <= n,
            n == src@.len(),
            out@.len() == i,
            forall|j: int| 0 <= j < i ==> out@[j] == src@[j],
        decreases n - i,
    {
        out.push(src[i]);
        i += 1;
    }
    proof {
        assert(out@ =~= src@);
    }
    out
}

/// Creates the owner's vault at its canonical derived key, zeroed and
/// initialized, and returns the canonical bump. A key already holding a
/// vault fails with `AlreadyInitialized`.
pub fn initialize(store: &mut VaultStore, tag: &Vec<u8>, program: &Identity, owner: &Identity) -> (r:
    Result<u8, VaultError>)
    requires
        tag@.len() <= MAX_TAG_LEN,
        old(store).wf(),
    ensures
        final(store).wf(),
        match spec_initialize(old(store)@, tag@, program@, owner@) {
            Ok(out) => r == Ok::<u8, VaultError>(out.1) && final(store)@ == out.0,
            Err(e) => r == Err::<u8, VaultError>(e) && final(store)@ == old(store)@,
        },
{
    let (key, bump) = match find_canonical_bump(tag, owner, program) {
        Some(p) => p,
        None => {
            return Err(VaultError::AuthorityMismatch);
        },
    };
    if store.contains(&key) {
        return Err(VaultError::AlreadyInitialized);
    }
    let rec = record_bytes(&VaultState::new(*owner));
    store.put(&key, rec);
    Ok(bump)
}

/// As `initialize`, but idempotent creation: a key already holding a
/// record of the expected layout succeeds as a no-op. This is a deliberate
/// convenience policy, not an idempotence guarantee on the balance.
pub fn initialize_if_needed(
    store: &mut VaultStore,
    tag: &Vec<u8>,
    program: &Identity,
    owner: &Identity,
) -> (r: Result<u8, VaultError>)
    requires
        tag@.len() <= MAX_TAG_LEN,
        old(store).wf(),
    ensures
        final(store).wf(),
        match spec_initialize_if_needed(old(store)@, tag@, program@, owner@) {
            Ok(out) => r == Ok::<u8, VaultError>(out.1) && final(store)@ == out.0,
            Err(e) => r == Err::<u8, VaultError>(e) && final(store)@ == old(store)@,
        },
{
    let (key, bump) = match find_canonical_bump(tag, owner, program) {
        Some(p) => p,
        None => {
            return Err(VaultError::AuthorityMismatch);
        },
    };
    match store.get(&key) {
        Some(data) => {
            if data.len() < STATE_LEN {
                return Err(VaultError::CorruptState);
            }
            Ok(bump)
        },
        None => {
            let rec = record_bytes(&VaultState::new(*owner));
            store.put(&key, rec);
            Ok(bump)
        },
    }
}

/// Deposits into the owner's vault: anyone may fund it, authorized by the
/// depositor's own identity. The balance rises by exactly the amount, with
/// overflow refused before any transfer is issued.
pub fn deposit(
    store: &mut VaultStore,
    tag: &Vec<u8>,
    program: &Identity,
    owner: &Identity,
    source: &Identity,
    amount: u64,
) -> (r: Result<TransferIntent, VaultError>)
    requires
        tag@.len() <= MAX_TAG_LEN,
        amount > 0,
        old(store).wf(),
    ensures
        final(store).wf(),
        match spec_deposit(old(store)@, tag@, program@, owner@, source@, amount) {
            Ok(out) => (r matches Ok(intent) && intent@ == out.1 && final(store)@ == out.0),
            Err(e) => r == Err::<TransferIntent, VaultError>(e) && final(store)@ == old(store)@,
        },
{
    let (key, _bump) = match find_canonical_bump(tag, owner, program) {
        Some(p) => p,
        None => {
            return Err(VaultError::NotFound);
        },
    };
    let state: VaultState;
    let mut new_data: Vec<u8>;
    match store.get(&key) {
        Some(data) => {
            state = match read_state(data) {
                Ok(st) => st,
                Err(e) => {
                    return Err(e);
                },
            };
            new_data = copy_bytes(data);
        },
        None => {
            return Err(VaultError::NotFound);
        },
    }
    if !state.initialized {
        return Err(VaultError::NotFound);
    }
    if state.balance > u64::MAX - amount {
        return Err(VaultError::BalanceOverflow);
    }
    let new_state = VaultState {
        balance: state.balance + amount,
        owner: state.owner,
        initialized: true,
    };
    match write_state(&mut new_data, &new_state) {
        Ok(()) => {},
        Err(e) => {
            return Err(e);
        },
    }
    store.put(&key, new_data);
    Ok(TransferIntent { from: *source, to: key, amount, authorizer: Authorizer::Signer(*source) })
}

/// Withdraws from the signer's vault. The caller must supply the canonical
/// bump: the payout is authorized by the derived authority, not the owner's
/// signature alone, so only a caller who can reconstruct the exact
/// derivation moves funds. The balance never drops below zero.
pub fn withdraw(
    store: &mut VaultStore,
    tag: &Vec<u8>,
    program: &Identity,
    signer: &Identity,
    bump: u8,
    destination: &Identity,
    amount: u64,
) -> (r: Result<TransferIntent, VaultError>)
    requires
        tag@.len() <= MAX_TAG_LEN,
        old(store).wf(),
    ensures
        final(store).wf(),
        match spec_withdraw(old(store)@, tag@, program@, signer@, bump, destination@, amount) {
            Ok(out) => (r matches Ok(intent) && intent@ == out.1 && final(store)@ == out.0),
            Err(e) => r == Err::<TransferIntent, VaultError>(e) && final(store)@ == old(store)@,
        },
{
    let (key, canonical) = match find_canonical_bump(tag, signer, program) {
        Some(p) => p,
        None => {
            return Err(VaultError::AuthorityMismatch);
        },
    };
    if bump != canonical {
        return Err(VaultError::AuthorityMismatch);
    }
    let state: VaultState;
    let mut new_data: Vec<u8>;
    match store.get(&key) {
        Some(data) => {
            state = match read_state(data) {
                Ok(st) => st,
                Err(e) => {
                    return Err(e);
                },
            };
            new_data = copy_bytes(data);
        },
        None => {
            return Err(VaultError::NotFound);
        },
    }
    if !state.initialized {
        return Err(VaultError::NotFound);
    }
    if !state.owner.equals(signer) {
        return Err(VaultError::Unauthorized);
    }
    if state.balance < amount {
        return Err(VaultError::InsufficientFunds);
    }
    let new_state = VaultState {
        balance: state.balance - amount,
        owner: state.owner,
        initialized: true,
    };
    match write_state(&mut new_data, &new_state) {
        Ok(()) => {},
        Err(e) => {
            return Err(e);
        },
    }
    store.put(&key, new_data);
    Ok(
        TransferIntent {
            from: key,
            to: *destination,
            amount,
            authorizer: Authorizer::Derived(
                DerivedRef { tag: copy_bytes(tag), owner: *signer, program: *program, bump },
            ),
        },
    )
}

/// Closes the signer's vault: pays the entire remaining balance to the
/// recipient, authorized by the derived authority, and deletes the record.
/// The close is terminal — the key holds nothing afterwards, and any
/// further operation on it fails with `NotFound`.
pub fn close(
    store: &mut VaultStore,
    tag: &Vec<u8>,
    program: &Identity,
    signer: &Identity,
    bump: u8,
    recipient: &Identity,
) -> (r: Result<TransferIntent, VaultError>)
    requires
        tag@.len() <= MAX_TAG_LEN,
        old(store).wf(),
    ensures
        final(store).wf(),
        match spec_close(old(store)@, tag@, program@, signer@, bump, recipient@) {
            Ok(out) => (r matches Ok(intent) && intent@ == out.1 && final(store)@ == out.0),
            Err(e) => r == Err::<TransferIntent, VaultError>(e) && final(store)@ == old(store)@,
        },
{
    let (key, canonical) = match find_canonical_bump(tag, signer, program) {
        Some(p) => p,
        None => {
            return Err(VaultError::AuthorityMismatch);
        },
    };
    if bump != canonical {
        return Err(VaultError::AuthorityMismatch);
    }
    let state: VaultState;
    match store.get(&key) {
        Some(data) => {
            state = match read_state(data) {
                Ok(st) => st,
                Err(e) => {
                    return Err(e);
                },
            };
        },
        None => {
            return Err(VaultError::NotFound);
        },
    }
    if !state.initialized {
        return Err(VaultError::NotFound);
    }
    if !state.owner.equals(signer) {
        return Err(VaultError::Unauthorized);
    }
    store.remove(&key);
    Ok(
        TransferIntent {
            from: key,
            to: *recipient,
            amount: state.balance,
            authorizer: Authorizer::Derived(
                DerivedRef { tag: copy_bytes(tag), owner: *signer, program: *program, bump },
            ),
        },
    )
}

/// Law: a deposit raises the vault's balance by exactly the amount, and
/// fails with `BalanceOverflow` — leaving the store unchanged — exactly
/// when the sum would pass the 64-bit range.
pub proof fn lemma_deposit_adds_amount(
    store: Map<Seq<u8>, Seq<u8>>,
    tag: Seq<u8>,
    program: Seq<u8>,
    owner: Seq<u8>,
    source: Seq<u8>,
    amount: u64,
    key: Seq<u8>,
)
    requires
        spec_vault_key(tag, owner, program) == Some(key),
        store.contains_key(key),
        store[key].len() >= STATE_LEN,
        spec_initialized_of(store[key]),
    ensures
        spec_balance_of(store[key]) + amount <= u64::MAX ==> (spec_deposit(
            store,
            tag,
            program,
            owner,
            source,
            amount,
        ) matches Ok(out) && out.1.amount == amount && spec_balance_of(out.0[key])
            == spec_balance_of(store[key]) + amount),
        spec_balance_of(store[key]) + amount > u64::MAX ==> spec_deposit(
            store,
            tag,
            program,
            owner,
            source,
            amount,
        ) == Err::<(Map<Seq<u8>, Seq<u8>>, IntentModel), VaultError>(VaultError::BalanceOverflow),
{
    let data = store[key];
    if spec_balance_of(data) + amount <= u64::MAX {
        crate::codec::lemma_state_write_read(
            data,
            (spec_balance_of(data) + amount) as u64,
            spec_owner_of(data),
            true,
        );
    }
}

/// Law: a withdrawal never drives the balance below zero. Asking for more
/// than the balance fails with `InsufficientFunds` and changes nothing; a
/// granted withdrawal moves exactly the amount and leaves exactly the
/// difference.
pub proof fn lemma_withdraw_never_overdraws(
    store: Map<Seq<u8>, Seq<u8>>,
    tag: Seq<u8>,
    program: Seq<u8>,
    signer: Seq<u8>,
    bump: u8,
    destination: Seq<u8>,
    amount: u64,
    key: Seq<u8>,
)
    requires
        spec_canonical_bump(tag, signer, program) == Some(bump),
        derived_id(tag, signer, program, bump) == Some(key),
        store.contains_key(key),
        store[key].len() >= STATE_LEN,
        spec_initialized_of(store[key]),
        spec_owner_of(store[key]) == signer,
    ensures
        amount > spec_balance_of(store[key]) ==> spec_withdraw(
            store,
            tag,
            program,
            signer,
            bump,
            destination,
            amount,
        ) == Err::<(Map<Seq<u8>, Seq<u8>>, IntentModel), VaultError>(VaultError::InsufficientFunds),
        amount <= spec_balance_of(store[key]) ==> (spec_withdraw(
            store,
            tag,
            program,
            signer,
            bump,
            destination,
            amount,
        ) matches Ok(out) && out.1.amount == amount && spec_balance_of(out.0[key])
            == spec_balance_of(store[key]) - amount),
{
    let data = store[key];
    if amount <= spec_balance_of(data) {
        crate::codec::lemma_state_write_read(
            data,
            (spec_balance_of(data) - amount) as u64,
            spec_owner_of(data),
            true,
        );
    }
}

/// Law: a correctly signing owner with a wrong bump is refused — any bump
/// other than the canonical one fails `withdraw` and `close` with
/// `AuthorityMismatch`, never moving funds.
pub proof fn lemma_wrong_derivation_rejected(
    store: Map<Seq<u8>, Seq<u8>>,
    tag: Seq<u8>,
    program: Seq<u8>,
    signer: Seq<u8>,
    bump: u8,
    other: Seq<u8>,
    amount: u64,
)
    requires
        spec_canonical_bump(tag, signer, program) != Some(bump),
    ensures
        spec_withdraw(store, tag, program, signer, bump, other, amount) == Err::<
            (Map<Seq<u8>, Seq<u8>>, IntentModel),
            VaultError,
        >(VaultError::AuthorityMismatch),
        spec_close(store, tag, program, signer, bump, other) == Err::<
            (Map<Seq<u8>, Seq<u8>>, IntentModel),
            VaultError,
        >(VaultError::AuthorityMismatch),
{
}

/// Law: every intent the controller yields is well-authorized — the proof
/// it carries resolves to the very account the funds leave. A deposit is
/// proved by the depositor's own signature over the depositor's account; a
/// withdrawal or close is proved by the derived authority's exact
/// derivation triple, which resolves to the vault key itself.
pub proof fn lemma_intents_well_authorized(
    store: Map<Seq<u8>, Seq<u8>>,
    tag: Seq<u8>,
    program: Seq<u8>,
    signer: Seq<u8>,
    bump: u8,
    source: Seq<u8>,
    to: Seq<u8>,
    amount: u64,
)
    requires
        tag.len() <= MAX_TAG_LEN,
    ensures
        (spec_deposit(store, tag, program, signer, source, amount) matches Ok(out)
            ==> crate::invoker::spec_intent_authorized(out.1)),
        (spec_withdraw(store, tag, program, signer, bump, to, amount) matches Ok(out)
            ==> crate::invoker::spec_intent_authorized(out.1)),
        (spec_close(store, tag, program, signer, bump, to) matches Ok(out)
            ==> crate::invoker::spec_intent_authorized(out.1)),
{
}

/// Law: close is terminal and pays out everything. A granted close moves
/// the entire remaining balance, and afterwards deposit, withdraw and a
/// second close on the same vault key all fail with `NotFound`.
pub proof fn lemma_close_terminal(
    store: Map<Seq<u8>, Seq<u8>>,
    tag: Seq<u8>,
    program: Seq<u8>,
    signer: Seq<u8>,
    bump: u8,
    recipient: Seq<u8>,
    source: Seq<u8>,
    destination: Seq<u8>,
    amount: u64,
    key: Seq<u8>,
)
    requires
        derived_id(tag, signer, program, bump) == Some(key),
        spec_close(store, tag, program, signer, bump, recipient) matches Ok(out),
    ensures
        (spec_close(store, tag, program, signer, bump, recipient) matches Ok(out) ==> {
            &&& out.1.amount == spec_balance_of(store[key])
            &&& out.1.to == recipient
            &&& !out.0.contains_key(key)
            &&& spec_deposit(out.0, tag, program, signer, source, amount) == Err::<
                (Map<Seq<u8>, Seq<u8>>, IntentModel),
                VaultError,
            >(VaultError::NotFound)
            &&& spec_withdraw(out.0, tag, program, signer, bump, destination, amount) == Err::<
                (Map<Seq<u8>, Seq<u8>>, IntentModel),
                VaultError,
            >(VaultError::NotFound)
            &&& spec_close(out.0, tag, program, signer, bump, recipient) == Err::<
                (Map<Seq<u8>, Seq<u8>>, IntentModel),
                VaultError,
            >(VaultError::NotFound)
        }),
{
}

} // verus!
