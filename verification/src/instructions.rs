//! Self-contained vault variant: a deposit record that encodes its running
//! total directly into its storage bytes and computes withdrawal amounts
//! algorithmically — every withdrawal moves exactly a tenth of the total.

use vstd::prelude::*;

use crate::codec::read_total;
use crate::codec::spec_total_of;
use crate::codec::spec_write_total_bytes;
use crate::codec::write_total;
use crate::codec::TOTAL_LEN;
use crate::errors::VaultError;
use crate::identity::Identity;
use crate::invoker::Authorizer;
use crate::invoker::AuthorizerModel;
use crate::invoker::IntentModel;
use crate::invoker::TransferIntent;

verus! {

/// What a deposit does to a record: raises the total by the amount and
/// yields the intent funding the deposit account, or fails — with
/// `CorruptState` on a short buffer, with `BalanceOverflow` where the new
/// total would pass the 64-bit range — leaving the record as it was.
pub open spec fn spec_deposit_total(s: Seq<u8>, payer: Seq<u8>, vault: Seq<u8>, amount: u64) -> Result<
    (Seq<u8>, IntentModel),
    VaultError,
> {
    if s.len() < TOTAL_LEN {
        Err(VaultError::CorruptState)
    } else if spec_total_of(s) + amount > u64::MAX {
        Err(VaultError::BalanceOverflow)
    } else {
        Ok(
            (
                spec_write_total_bytes(s, (spec_total_of(s) + amount) as u64),
                IntentModel {
                    from: payer,
                    to: vault,
                    amount,
                    authorizer: AuthorizerModel::Signer(payer),
                },
            ),
        )
    }
}

/// What a withdrawal does to a record: moves exactly a tenth of the total
/// (rounded down) to the recipient and lowers the total by the same amount,
/// or fails — with `CorruptState` on a short buffer, with
/// `NothingToWithdraw` where the computed tenth is zero — leaving the
/// record as it was.
pub open spec fn spec_withdraw_total(s: Seq<u8>, vault: Seq<u8>, recipient: Seq<u8>) -> Result<
    (Seq<u8>, IntentModel),
    VaultError,
> {
    if s.len() < TOTAL_LEN {
        Err(VaultError::CorruptState)
    } else if spec_total_of(s) / 10 == 0 {
        Err(VaultError::NothingToWithdraw)
    } else {
        Ok(
            (
                spec_write_total_bytes(s, (spec_total_of(s) - spec_total_of(s) / 10) as u64),
                IntentModel {
                    from: vault,
                    to: recipient,
                    amount: spec_total_of(s) / 10,
                    authorizer: AuthorizerModel::Signer(vault),
                },
            ),
        )
    }
}

/// Funds a self-contained deposit record: moves `amount` from the payer to
/// the deposit account, authorized by the payer alone, and raises the
/// recorded total by the same amount with non-wrapping arithmetic.
pub fn deposit(buffer: &mut Vec<u8>, payer: &Identity, vault: &Identity, amount: u64) -> (r: Result<
    TransferIntent,
    VaultError,
>)
    ensures
        match spec_deposit_total(old(buffer)@, payer@, vault@, amount) {
            Ok(out) => (r matches Ok(intent) && intent@ == out.1 && final(buffer)@ == out.0),
            Err(e) => r == Err::<TransferIntent, VaultError>(e) && final(buffer)@ == old(buffer)@,
        },
{
    let total = match read_total(buffer) {
        Ok(t) => t,
        Err(e) => {
            return Err(e);
        },
    };
    if total > u64::MAX - amount {
        return Err(VaultError::BalanceOverflow);
    }
    match write_total(buffer, total + amount) {
        Ok(()) => {},
        Err(e) => {
            return Err(e);
        },
    }
    Ok(TransferIntent { from: *payer, to: *vault, amount, authorizer: Authorizer::Signer(*payer) })
}

/// Skims a self-contained deposit record: moves exactly a tenth of the
/// recorded total to the recipient and lowers the total by that amount;
/// a total under ten leaves nothing to move and fails.
pub fn withdraw(buffer: &mut Vec<u8>, vault: &Identity, recipient: &Identity) -> (r: Result<
    TransferIntent,
    VaultError,
>)
    ensures
        match spec_withdraw_total(old(buffer)@, vault@, recipient@) {
            Ok(out) => (r matches Ok(intent) && intent@ == out.1 && final(buffer)@ == out.0),
            Err(e) => r == Err::<TransferIntent, VaultError>(e) && final(buffer)@ == old(buffer)@,
        },
{
    let total = match read_total(buffer) {
        Ok(t) => t,
        Err(e) => {
            return Err(e);
        },
    };
    let skim = total / 10;
    if skim == 0 {
        return Err(VaultError::NothingToWithdraw);
    }
    match write_total(buffer, total - skim) {
        Ok(()) => {},
        Err(e) => {
            return Err(e);
        },
    }
    Ok(
        TransferIntent {
            from: *vault,
            to: *recipient,
            amount: skim,
            authorizer: Authorizer::Signer(*vault),
        },
    )
}

/// Law: a withdrawal moves exactly a tenth of the total, never more and
/// never less, and fails with `NothingToWithdraw` exactly when the total is
/// under ten — in which case the record is untouched.
pub proof fn lemma_withdraw_skims_tenth(s: Seq<u8>, vault: Seq<u8>, recipient: Seq<u8>)
    requires
        s.len() >= TOTAL_LEN,
    ensures
        spec_total_of(s) >= 10 ==> (spec_withdraw_total(s, vault, recipient) matches Ok(out)
            && out.1.amount == spec_total_of(s) / 10 && spec_total_of(out.0) == spec_total_of(s)
            - spec_total_of(s) / 10),
        spec_total_of(s) < 10 ==> spec_withdraw_total(s, vault, recipient) == Err::<
            (Seq<u8>, IntentModel),
            VaultError,
        >(VaultError::NothingToWithdraw),
{
    if spec_total_of(s) >= 10 {
        crate::codec::lemma_total_write_read(s, (spec_total_of(s) - spec_total_of(s) / 10) as u64);
    }
}

/// Law: a deposit raises the total by exactly the amount deposited, and
/// fails with `BalanceOverflow` exactly when the sum would pass the 64-bit
/// range — in which case the record is untouched.
pub proof fn lemma_deposit_adds_amount(s: Seq<u8>, payer: Seq<u8>, vault: Seq<u8>, amount: u64)
    requires
        s.len() >= TOTAL_LEN,
    ensures
        spec_total_of(s) + amount <= u64::MAX ==> (spec_deposit_total(s, payer, vault, amount)
            matches Ok(out) && out.1.amount == amount && spec_total_of(out.0) == spec_total_of(s)
            + amount),
        spec_total_of(s) + amount > u64::MAX ==> spec_deposit_total(s, payer, vault, amount)
            == Err::<(Seq<u8>, IntentModel), VaultError>(VaultError::BalanceOverflow),
{
    if spec_total_of(s) + amount <= u64::MAX {
        crate::codec::lemma_total_write_read(s, (spec_total_of(s) + amount) as u64);
    }
}

} // verus!
