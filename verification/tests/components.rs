use vault_core::authority::find_canonical_bump;
use vault_core::codec::read_state;
use vault_core::codec::write_state;
use vault_core::codec::VaultState;
use vault_core::config::Network;
use vault_core::errors::VaultError;
use vault_core::identity::Identity;
use vault_core::invoker::authorize_intent;
use vault_core::invoker::resolve_authorizer;
use vault_core::invoker::settle_outcome;
use vault_core::invoker::Authorizer;
use vault_core::invoker::DerivedRef;
use vault_core::invoker::TransferIntent;
use vault_core::invoker::TransferOutcome;
use vault_core::store::VaultStore;

fn id(n: u8) -> Identity {
    Identity::from_bytes([n; 32])
}

#[test]
fn state_codec_round_trip() {
    let mut buffer = vec![0u8; 41];
    let state = VaultState { balance: 123_456_789, owner: id(7), initialized: true };
    write_state(&mut buffer, &state).expect("write");
    let back = read_state(&buffer).expect("read");
    assert_eq!(back.balance, 123_456_789);
    assert_eq!(back.owner.bytes, [7u8; 32]);
    assert!(back.initialized);
    // The balance sits little-endian at the front of the record.
    assert_eq!(&buffer[0..8], &123_456_789u64.to_le_bytes());
    assert_eq!(buffer[40], 1);
}

#[test]
fn state_codec_refuses_short_buffers() {
    let mut short = vec![0u8; 40];
    assert_eq!(read_state(&short).map(|s| s.balance), Err(VaultError::CorruptState));
    let state = VaultState::new(id(1));
    assert_eq!(write_state(&mut short, &state), Err(VaultError::CorruptState));
    assert_eq!(short, vec![0u8; 40]);
}

#[test]
fn fresh_state_is_zeroed_and_initialized() {
    let state = VaultState::new(id(9));
    assert_eq!(state.balance, 0);
    assert_eq!(state.owner.bytes, [9u8; 32]);
    assert!(state.initialized);
}

#[test]
fn store_put_get_remove() {
    let mut store = VaultStore::new();
    let k1 = id(1);
    let k2 = id(2);
    assert!(store.get(&k1).is_none());
    assert!(!store.contains(&k1));

    store.put(&k1, vec![10, 11]);
    store.put(&k2, vec![20]);
    assert_eq!(store.get(&k1).expect("present"), &vec![10, 11]);
    assert_eq!(store.get(&k2).expect("present"), &vec![20]);

    store.put(&k1, vec![12]);
    assert_eq!(store.get(&k1).expect("present"), &vec![12]);

    assert!(store.remove(&k1));
    assert!(store.get(&k1).is_none());
    assert!(!store.remove(&k1));
    assert_eq!(store.get(&k2).expect("still present"), &vec![20]);
}

#[test]
fn settle_outcome_maps_the_external_report() {
    assert_eq!(settle_outcome(TransferOutcome::Completed), Ok(()));
    assert_eq!(
        settle_outcome(TransferOutcome::InsufficientExternalFunds),
        Err(VaultError::InsufficientFunds)
    );
}

#[test]
fn signer_authorizes_only_its_own_account() {
    let intent = TransferIntent {
        from: id(1),
        to: id(2),
        amount: 5,
        authorizer: Authorizer::Signer(id(1)),
    };
    assert_eq!(authorize_intent(&intent), Ok(()));

    let forged = TransferIntent {
        from: id(1),
        to: id(2),
        amount: 5,
        authorizer: Authorizer::Signer(id(3)),
    };
    assert_eq!(authorize_intent(&forged), Err(VaultError::Unauthorized));
}

#[test]
fn derived_authority_resolves_to_its_derivation() {
    let owner = id(4);
    let program = id(5);
    let tag = b"vault".to_vec();
    let (key, bump) = find_canonical_bump(&tag, &owner, &program).expect("canonical bump");

    let authorizer = Authorizer::Derived(DerivedRef {
        tag: tag.clone(),
        owner,
        program,
        bump,
    });
    let resolved = resolve_authorizer(&authorizer).expect("canonical derivation resolves");
    assert_eq!(resolved.bytes, key.bytes);

    // The derived authority proves exactly the account it derives to.
    let intent = TransferIntent { from: key, to: id(6), amount: 9, authorizer };
    assert_eq!(authorize_intent(&intent), Ok(()));

    // With some other account as the source it proves nothing.
    let other = TransferIntent {
        from: id(7),
        to: id(6),
        amount: 9,
        authorizer: Authorizer::Derived(DerivedRef { tag, owner, program, bump }),
    };
    assert_eq!(authorize_intent(&other), Err(VaultError::Unauthorized));
}

#[test]
fn network_urls() {
    assert_eq!(Network::Localnet.url(), "http://127.0.0.1:8899");
    assert_eq!(Network::Devnet.url(), "https://api.devnet.solana.com");
    assert_eq!(Network::Testnet.url(), "https://api.testnet.solana.com");
}
