//! Instruction processor for the self-contained vault variant: decodes raw
//! instruction bytes — a one-byte variant index followed by the variant's
//! little-endian fields — and applies them to a deposit record.

use vstd::bytes::lemma_auto_spec_u64_to_from_le_bytes;
use vstd::bytes::spec_u64_from_le_bytes;
use vstd::bytes::spec_u64_to_le_bytes;
use vstd::bytes::u64_from_le_bytes;
use vstd::bytes::u64_to_le_bytes;
use vstd::prelude::*;

use crate::errors::VaultError;
use crate::identity::Identity;
use crate::instructions;
use crate::instructions::spec_deposit_total;
use crate::instructions::spec_withdraw_total;
use crate::invoker::TransferIntent;

verus! {

/// A wire instruction for the self-contained vault.
#[derive(Clone, Copy, Debug, PartialEq, Eq, Structural)]
pub enum TransferInstruction {
    DepositInstruction(u64),
    WithdrawalInstruction(),
}

/// The byte encoding of an instruction: a one-byte variant index, then the
/// variant's fields in little-endian order.
pub open spec fn spec_instruction_bytes(inst: TransferInstruction) -> Seq<u8> {
    match inst {
        TransferInstruction::DepositInstruction(amount) => seq![0u8] + spec_u64_to_le_bytes(amount),
        TransferInstruction::WithdrawalInstruction() => seq![1u8],
    }
}

/// The instruction a byte string decodes to, if any; the whole input must
/// be consumed, with nothing trailing.
pub open spec fn spec_parse_instruction(s: Seq<u8>) -> Option<TransferInstruction> {
    if s.len() == 9 && s[0] == 0 {
        Some(TransferInstruction::DepositInstruction(spec_u64_from_le_bytes(s.skip(1))))
    } else if s.len() == 1 && s[0] == 1 {
        Some(TransferInstruction::WithdrawalInstruction())
    } else {
        None
    }
}

/// Decodes an instruction; malformed bytes fail with `CorruptState`.
pub fn parse_instruction(input: &Vec<u8>) -> (r: Result<TransferInstruction, VaultError>)
    ensures
        match spec_parse_instruction(input@) {
            Some(inst) => r == Ok::<TransferInstruction, VaultError>(inst),
            None => r == Err::<TransferInstruction, VaultError>(VaultError::CorruptState),
        },
{
    if input.len() == 9 && input[0] == 0 {
        let amount = u64_from_le_bytes(&input[1..9]);
        proof {
            assert(input@.subrange(1, 9) =~= input@.skip(1));
        }
        Ok(TransferInstruction::DepositInstruction(amount))
    } else if input.len() == 1 && input[0] == 1 {
        Ok(TransferInstruction::WithdrawalInstruction())
    } else {
        Err(VaultError::CorruptState)
    }
}

/// Encodes an instruction into its wire bytes.
pub fn encode_instruction(inst: &TransferInstruction) -> (r: Vec<u8>)
    ensures
        r@ == spec_instruction_bytes(*inst),
{
    match inst {
        TransferInstruction::DepositInstruction(amount) => {
            let mut v: Vec<u8> = Vec::new();
            v.push(0);
            let mut enc = u64_to_le_bytes(*amount);
            v.append(&mut enc);
            proof {
                assert(v@ =~= spec_instruction_bytes(*inst));
            }
            v
        },
        TransferInstruction::WithdrawalInstruction() => {
            let mut v: Vec<u8> = Vec::new();
            v.push(1);
            proof {
                assert(v@ =~= spec_instruction_bytes(*inst));
            }
            v
        },
    }
}

/// Law: decoding an encoded instruction gives the instruction back.
pub proof fn lemma_instruction_round_trip(inst: TransferInstruction)
    ensures
        spec_parse_instruction(spec_instruction_bytes(inst)) == Some(inst),
{
    lemma_auto_spec_u64_to_from_le_bytes();
    match inst {
        TransferInstruction::DepositInstruction(amount) => {
            let s = spec_instruction_bytes(inst);
            assert(s.skip(1) =~= spec_u64_to_le_bytes(amount));
        },
        TransferInstruction::WithdrawalInstruction() => {},
    }
}

/// Law: only an instruction's own encoding decodes to it — the decoder
/// accepts no other byte string.
pub proof fn lemma_parse_exact(s: Seq<u8>, inst: TransferInstruction)
    requires
        spec_parse_instruction(s) == Some(inst),
    ensures
        s == spec_instruction_bytes(inst),
{
    lemma_auto_spec_u64_to_from_le_bytes();
    if s.len() == 9 && s[0] == 0 {
        assert(s =~= seq![0u8] + spec_u64_to_le_bytes(spec_u64_from_le_bytes(s.skip(1))));
    } else {
        assert(s =~= seq![1u8]);
    }
}

/// Decodes raw instruction bytes and applies them to a self-contained
/// deposit record, yielding the transfer the ledger must perform.
pub fn process_instruction(
    buffer: &mut Vec<u8>,
    payer: &Identity,
    vault: &Identity,
    recipient: &Identity,
    input: &Vec<u8>,
) -> (r: Result<TransferIntent, VaultError>)
    ensures
        match spec_parse_instruction(input@) {
            None => r == Err::<TransferIntent, VaultError>(VaultError::CorruptState)
                && final(buffer)@ == old(buffer)@,
            Some(TransferInstruction::DepositInstruction(amount)) => (match spec_deposit_total(
                old(buffer)@,
                payer@,
                vault@,
                amount,
            ) {
                Ok(out) => (r matches Ok(intent) && intent@ == out.1 && final(buffer)@ == out.0),
                Err(e) => r == Err::<TransferIntent, VaultError>(e)
                    && final(buffer)@ == old(buffer)@,
            }),
            Some(TransferInstruction::WithdrawalInstruction()) => (match spec_withdraw_total(
                old(buffer)@,
                vault@,
                recipient@,
            ) {
                Ok(out) => (r matches Ok(intent) && intent@ == out.1 && final(buffer)@ == out.0),
                Err(e) => r == Err::<TransferIntent, VaultError>(e)
                    && final(buffer)@ == old(buffer)@,
            }),
        },
{
    let inst = match parse_instruction(input) {
        Ok(i) => i,
        Err(e) => {
            return Err(e);
        },
    };
    match inst {
        TransferInstruction::DepositInstruction(amount) => instructions::deposit(
            buffer,
            payer,
            vault,
            amount,
        ),
        TransferInstruction::WithdrawalInstruction() => instructions::withdraw(
            buffer,
            vault,
            recipient,
        ),
    }
}

} // verus!
