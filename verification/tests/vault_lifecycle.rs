use vault_core::authority::find_canonical_bump;
use vault_core::authority::verify;
use vault_core::codec::read_state;
use vault_core::codec::record_bytes;
use vault_core::codec::VaultState;
use vault_core::errors::VaultError;
use vault_core::identity::Identity;
use vault_core::invoker::Authorizer;
use vault_core::store::VaultStore;
use vault_core::vault::close;
use vault_core::vault::deposit;
use vault_core::vault::initialize;
use vault_core::vault::initialize_if_needed;
use vault_core::vault::withdraw;

fn id(n: u8) -> Identity {
    Identity::from_bytes([n; 32])
}

fn tag() -> Vec<u8> {
    b"vault".to_vec()
}

fn balance_of(store: &VaultStore, key: &Identity) -> u64 {
    let data = store.get(key).expect("vault record should be present");
    read_state(data).expect("vault record should decode").balance
}

#[test]
fn derive_is_deterministic() {
    let owner = id(7);
    let program = id(9);
    let (key1, bump1) = find_canonical_bump(&tag(), &owner, &program).expect("canonical bump");
    let (key2, bump2) = find_canonical_bump(&tag(), &owner, &program).expect("canonical bump");
    assert_eq!(bump1, bump2);
    assert_eq!(key1.bytes, key2.bytes);
    let d1 = vault_core::authority::derive(&tag(), &owner, &program, bump1).expect("canonical bump derives");
    let d2 = vault_core::authority::derive(&tag(), &owner, &program, bump1).expect("canonical bump derives");
    assert_eq!(d1.bytes, d2.bytes);
    assert_eq!(d1.bytes, key1.bytes);
}

#[test]
fn verify_checks_expected_derivation() {
    let owner = id(3);
    let program = id(4);
    let (key, bump) = find_canonical_bump(&tag(), &owner, &program).expect("canonical bump");
    assert!(verify(&key, &tag(), &owner, &program, bump));
    // A different expected identity never passes for the same derivation.
    assert!(!verify(&id(8), &tag(), &owner, &program, bump));
    // The canonical derivation of another owner does not match this key.
    let (other_key, other_bump) =
        find_canonical_bump(&tag(), &id(8), &program).expect("canonical bump");
    assert!(!verify(&key, &tag(), &id(8), &program, other_bump));
    assert!(verify(&other_key, &tag(), &id(8), &program, other_bump));
}

#[test]
fn lifecycle_scenario() {
    // Vault created for owner O; deposit 1000 -> balance 1000; withdraw 400
    // with the owner's proof -> balance 600; close to recipient R -> R is
    // paid 600 and the vault no longer exists.
    let owner = id(1);
    let program = id(2);
    let source = id(3);
    let destination = id(4);
    let recipient = id(5);
    let mut store = VaultStore::new();

    let bump = initialize(&mut store, &tag(), &program, &owner).expect("initialize");
    let (key, canonical) = find_canonical_bump(&tag(), &owner, &program).expect("canonical bump");
    assert_eq!(bump, canonical);
    assert_eq!(balance_of(&store, &key), 0);

    let intent = deposit(&mut store, &tag(), &program, &owner, &source, 1000).expect("deposit");
    assert_eq!(intent.amount, 1000);
    assert_eq!(intent.from.bytes, source.bytes);
    assert_eq!(intent.to.bytes, key.bytes);
    assert!(matches!(&intent.authorizer, Authorizer::Signer(s) if s.bytes == source.bytes));
    assert_eq!(balance_of(&store, &key), 1000);

    let intent =
        withdraw(&mut store, &tag(), &program, &owner, bump, &destination, 400).expect("withdraw");
    assert_eq!(intent.amount, 400);
    assert_eq!(intent.from.bytes, key.bytes);
    assert_eq!(intent.to.bytes, destination.bytes);
    match &intent.authorizer {
        Authorizer::Derived(d) => {
            assert_eq!(d.tag, tag());
            assert_eq!(d.owner.bytes, owner.bytes);
            assert_eq!(d.program.bytes, program.bytes);
            assert_eq!(d.bump, bump);
        }
        Authorizer::Signer(_) => panic!("withdrawal must be authorized by the derived authority"),
    }
    assert_eq!(balance_of(&store, &key), 600);

    let intent = close(&mut store, &tag(), &program, &owner, bump, &recipient).expect("close");
    assert_eq!(intent.amount, 600);
    assert_eq!(intent.from.bytes, key.bytes);
    assert_eq!(intent.to.bytes, recipient.bytes);
    assert!(store.get(&key).is_none());

    // The close is terminal: every further operation reports NotFound.
    assert_eq!(
        withdraw(&mut store, &tag(), &program, &owner, bump, &destination, 1).map(|i| i.amount),
        Err(VaultError::NotFound)
    );
    assert_eq!(
        deposit(&mut store, &tag(), &program, &owner, &source, 1).map(|i| i.amount),
        Err(VaultError::NotFound)
    );
    assert_eq!(
        close(&mut store, &tag(), &program, &owner, bump, &recipient).map(|i| i.amount),
        Err(VaultError::NotFound)
    );
}

#[test]
fn deposit_overflows_are_refused() {
    let owner = id(11);
    let program = id(12);
    let source = id(13);
    let mut store = VaultStore::new();
    initialize(&mut store, &tag(), &program, &owner).expect("initialize");
    let (key, _) = find_canonical_bump(&tag(), &owner, &program).expect("canonical bump");

    deposit(&mut store, &tag(), &program, &owner, &source, u64::MAX).expect("deposit");
    assert_eq!(balance_of(&store, &key), u64::MAX);
    assert_eq!(
        deposit(&mut store, &tag(), &program, &owner, &source, 1).map(|i| i.amount),
        Err(VaultError::BalanceOverflow)
    );
    assert_eq!(balance_of(&store, &key), u64::MAX);
}

#[test]
fn withdraw_more_than_balance_is_refused() {
    let owner = id(21);
    let program = id(22);
    let destination = id(23);
    let mut store = VaultStore::new();
    let bump = initialize(&mut store, &tag(), &program, &owner).expect("initialize");
    let (key, _) = find_canonical_bump(&tag(), &owner, &program).expect("canonical bump");
    deposit(&mut store, &tag(), &program, &owner, &id(24), 100).expect("deposit");

    assert_eq!(
        withdraw(&mut store, &tag(), &program, &owner, bump, &destination, 200).map(|i| i.amount),
        Err(VaultError::InsufficientFunds)
    );
    assert_eq!(balance_of(&store, &key), 100);
}

#[test]
fn wrong_bump_is_rejected() {
    let owner = id(31);
    let program = id(32);
    let mut store = VaultStore::new();
    let bump = initialize(&mut store, &tag(), &program, &owner).expect("initialize");
    deposit(&mut store, &tag(), &program, &owner, &id(33), 100).expect("deposit");

    let wrong = bump.wrapping_add(1);
    assert_eq!(
        withdraw(&mut store, &tag(), &program, &owner, wrong, &id(34), 10).map(|i| i.amount),
        Err(VaultError::AuthorityMismatch)
    );
    assert_eq!(
        close(&mut store, &tag(), &program, &owner, wrong, &id(34)).map(|i| i.amount),
        Err(VaultError::AuthorityMismatch)
    );
    // The vault is untouched by the refused attempts.
    let (key, _) = find_canonical_bump(&tag(), &owner, &program).expect("canonical bump");
    assert_eq!(balance_of(&store, &key), 100);
}

#[test]
fn stranger_has_no_vault_to_withdraw_from() {
    let owner = id(41);
    let stranger = id(42);
    let program = id(43);
    let mut store = VaultStore::new();
    initialize(&mut store, &tag(), &program, &owner).expect("initialize");
    deposit(&mut store, &tag(), &program, &owner, &id(44), 100).expect("deposit");

    // A stranger's canonical derivation points at their own (absent) vault.
    let (_, stranger_bump) = find_canonical_bump(&tag(), &stranger, &program).expect("bump");
    assert_eq!(
        withdraw(&mut store, &tag(), &program, &stranger, stranger_bump, &id(45), 10)
            .map(|i| i.amount),
        Err(VaultError::NotFound)
    );
}

#[test]
fn second_initialize_is_refused_but_if_needed_is_a_noop() {
    let owner = id(51);
    let program = id(52);
    let mut store = VaultStore::new();
    let bump = initialize(&mut store, &tag(), &program, &owner).expect("initialize");
    deposit(&mut store, &tag(), &program, &owner, &id(53), 70).expect("deposit");

    assert_eq!(
        initialize(&mut store, &tag(), &program, &owner),
        Err(VaultError::AlreadyInitialized)
    );
    assert_eq!(initialize_if_needed(&mut store, &tag(), &program, &owner), Ok(bump));
    // The no-op creation left the balance alone.
    let (key, _) = find_canonical_bump(&tag(), &owner, &program).expect("canonical bump");
    assert_eq!(balance_of(&store, &key), 70);
}

#[test]
fn operations_before_initialize_report_not_found() {
    let owner = id(61);
    let program = id(62);
    let mut store = VaultStore::new();
    let (_, bump) = find_canonical_bump(&tag(), &owner, &program).expect("canonical bump");
    assert_eq!(
        deposit(&mut store, &tag(), &program, &owner, &id(63), 5).map(|i| i.amount),
        Err(VaultError::NotFound)
    );
    assert_eq!(
        withdraw(&mut store, &tag(), &program, &owner, bump, &id(63), 5).map(|i| i.amount),
        Err(VaultError::NotFound)
    );
    assert_eq!(
        close(&mut store, &tag(), &program, &owner, bump, &id(63)).map(|i| i.amount),
        Err(VaultError::NotFound)
    );
}

#[test]
fn foreign_record_at_the_signers_key_is_unauthorized() {
    let signer = id(71);
    let other = id(72);
    let program = id(73);
    let mut store = VaultStore::new();
    let (key, bump) = find_canonical_bump(&tag(), &signer, &program).expect("canonical bump");
    // A record registered to some other owner sits at the signer's key.
    let rec = record_bytes(&VaultState { balance: 50, owner: other, initialized: true });
    store.put(&key, rec);
    assert_eq!(
        withdraw(&mut store, &tag(), &program, &signer, bump, &id(74), 10).map(|i| i.amount),
        Err(VaultError::Unauthorized)
    );
    assert_eq!(
        close(&mut store, &tag(), &program, &signer, bump, &id(74)).map(|i| i.amount),
        Err(VaultError::Unauthorized)
    );
    assert_eq!(balance_of(&store, &key), 50);
}

#[test]
fn corrupt_and_uninitialized_records_are_reported() {
    let owner = id(81);
    let program = id(82);
    let mut store = VaultStore::new();
    let (key, bump) = find_canonical_bump(&tag(), &owner, &program).expect("canonical bump");

    // A buffer shorter than the schema is corrupt for every operation.
    store.put(&key, vec![0u8; 10]);
    assert_eq!(
        deposit(&mut store, &tag(), &program, &owner, &id(83), 5).map(|i| i.amount),
        Err(VaultError::CorruptState)
    );
    assert_eq!(
        withdraw(&mut store, &tag(), &program, &owner, bump, &id(83), 5).map(|i| i.amount),
        Err(VaultError::CorruptState)
    );
    assert_eq!(
        close(&mut store, &tag(), &program, &owner, bump, &id(83)).map(|i| i.amount),
        Err(VaultError::CorruptState)
    );
    assert_eq!(
        initialize_if_needed(&mut store, &tag(), &program, &owner),
        Err(VaultError::CorruptState)
    );

    // A record never initialized cannot accept deposits or withdrawals.
    let rec = record_bytes(&VaultState { balance: 50, owner, initialized: false });
    store.put(&key, rec);
    assert_eq!(
        deposit(&mut store, &tag(), &program, &owner, &id(83), 5).map(|i| i.amount),
        Err(VaultError::NotFound)
    );
    assert_eq!(
        withdraw(&mut store, &tag(), &program, &owner, bump, &id(83), 5).map(|i| i.amount),
        Err(VaultError::NotFound)
    );
}
