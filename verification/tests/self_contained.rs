use vault_core::codec::read_total;
use vault_core::errors::VaultError;
use vault_core::identity::Identity;
use vault_core::instructions::deposit;
use vault_core::instructions::withdraw;
use vault_core::invoker::Authorizer;
use vault_core::processor::encode_instruction;
use vault_core::processor::parse_instruction;
use vault_core::processor::process_instruction;
use vault_core::processor::TransferInstruction;

fn id(n: u8) -> Identity {
    Identity::from_bytes([n; 32])
}

fn record(total: u64) -> Vec<u8> {
    total.to_le_bytes().to_vec()
}

fn total_of(buffer: &Vec<u8>) -> u64 {
    read_total(buffer).expect("record should decode")
}

#[test]
fn deposit_then_skim_then_nothing_left() {
    // Deposit 100 -> total 100; withdraw -> moves 10, total 90; a later
    // withdrawal on a total of 5 fails with NothingToWithdraw.
    let payer = id(1);
    let vault = id(2);
    let recipient = id(3);
    let mut buffer = record(0);

    let intent = deposit(&mut buffer, &payer, &vault, 100).expect("deposit");
    assert_eq!(intent.amount, 100);
    assert_eq!(intent.from.bytes, payer.bytes);
    assert_eq!(intent.to.bytes, vault.bytes);
    assert!(matches!(&intent.authorizer, Authorizer::Signer(s) if s.bytes == payer.bytes));
    assert_eq!(total_of(&buffer), 100);

    let intent = withdraw(&mut buffer, &vault, &recipient).expect("withdraw");
    assert_eq!(intent.amount, 10);
    assert_eq!(intent.from.bytes, vault.bytes);
    assert_eq!(intent.to.bytes, recipient.bytes);
    assert_eq!(total_of(&buffer), 90);

    let mut low = record(5);
    assert_eq!(
        withdraw(&mut low, &vault, &recipient).map(|i| i.amount),
        Err(VaultError::NothingToWithdraw)
    );
    assert_eq!(total_of(&low), 5);
}

#[test]
fn skim_is_exactly_a_tenth_rounded_down() {
    let vault = id(4);
    let recipient = id(5);
    let mut buffer = record(999);
    let intent = withdraw(&mut buffer, &vault, &recipient).expect("withdraw");
    assert_eq!(intent.amount, 99);
    assert_eq!(total_of(&buffer), 900);

    let mut nine = record(9);
    assert_eq!(
        withdraw(&mut nine, &vault, &recipient).map(|i| i.amount),
        Err(VaultError::NothingToWithdraw)
    );
    let mut ten = record(10);
    assert_eq!(withdraw(&mut ten, &vault, &recipient).map(|i| i.amount), Ok(1));
    assert_eq!(total_of(&ten), 9);
}

#[test]
fn deposit_overflow_is_refused() {
    let mut buffer = record(u64::MAX - 4);
    assert_eq!(
        deposit(&mut buffer, &id(1), &id(2), 5).map(|i| i.amount),
        Err(VaultError::BalanceOverflow)
    );
    assert_eq!(total_of(&buffer), u64::MAX - 4);
    deposit(&mut buffer, &id(1), &id(2), 4).expect("deposit up to the limit");
    assert_eq!(total_of(&buffer), u64::MAX);
}

#[test]
fn short_buffers_are_corrupt() {
    let mut short = vec![1u8, 2, 3];
    assert_eq!(
        deposit(&mut short, &id(1), &id(2), 5).map(|i| i.amount),
        Err(VaultError::CorruptState)
    );
    assert_eq!(
        withdraw(&mut short, &id(1), &id(2)).map(|i| i.amount),
        Err(VaultError::CorruptState)
    );
    assert_eq!(short, vec![1u8, 2, 3]);
}

#[test]
fn tail_bytes_survive_a_write() {
    let mut buffer = record(40);
    buffer.push(0xAB);
    buffer.push(0xCD);
    withdraw(&mut buffer, &id(1), &id(2)).expect("withdraw");
    assert_eq!(total_of(&buffer), 36);
    assert_eq!(&buffer[8..], &[0xAB, 0xCD]);
}

#[test]
fn instruction_round_trip() {
    let deposit_inst = TransferInstruction::DepositInstruction(7_000_000_123);
    let bytes = encode_instruction(&deposit_inst);
    assert_eq!(bytes[0], 0);
    assert_eq!(bytes.len(), 9);
    assert_eq!(parse_instruction(&bytes), Ok(deposit_inst));

    let withdraw_inst = TransferInstruction::WithdrawalInstruction();
    let bytes = encode_instruction(&withdraw_inst);
    assert_eq!(bytes, vec![1u8]);
    assert_eq!(parse_instruction(&bytes), Ok(withdraw_inst));
}

#[test]
fn malformed_instructions_are_corrupt() {
    for bad in [
        vec![],
        vec![2u8],
        vec![0u8],
        vec![0u8, 1, 2, 3],
        vec![1u8, 0],
        vec![0u8, 1, 2, 3, 4, 5, 6, 7, 8, 9],
    ] {
        assert_eq!(parse_instruction(&bad), Err(VaultError::CorruptState));
    }
}

#[test]
fn process_instruction_dispatches() {
    let payer = id(1);
    let vault = id(2);
    let recipient = id(3);
    let mut buffer = record(0);

    let input = encode_instruction(&TransferInstruction::DepositInstruction(100));
    let intent =
        process_instruction(&mut buffer, &payer, &vault, &recipient, &input).expect("deposit");
    assert_eq!(intent.amount, 100);
    assert_eq!(total_of(&buffer), 100);

    let input = encode_instruction(&TransferInstruction::WithdrawalInstruction());
    let intent =
        process_instruction(&mut buffer, &payer, &vault, &recipient, &input).expect("withdraw");
    assert_eq!(intent.amount, 10);
    assert_eq!(total_of(&buffer), 90);

    let garbage = vec![9u8, 9, 9];
    assert_eq!(
        process_instruction(&mut buffer, &payer, &vault, &recipient, &garbage).map(|i| i.amount),
        Err(VaultError::CorruptState)
    );
    assert_eq!(total_of(&buffer), 90);
}
