use bifrost_ffi::chain::{Checksum256, PermissionLevel};
use bifrost_ffi::db::{ChangeScheduleArgs, ProveActionArgs};
use bifrost_ffi::ffi_types::{
    respond, ActionFFI, ActionReceiptFFI, BlockHeaderFFI, Checksum256FFI, Checksum256ListFFI,
    IncrementalMerkleFFI, ProducerKeyFFI, ProducerScheduleFFI, SignedBlockHeaderFFI,
};
use bifrost_ffi::rpc_calls::{
    atomic_update_nonce, get_latest_nonce, next_nonce, signing_identity, DispatchAction,
    Dispatcher, NonceCoordinator,
};
use bifrost_ffi::{change_schedule, check_pointers, prove_action, Error, Field, LedgerErrorKind};
use std::sync::atomic::{AtomicU32, Ordering};

const ALICE_PUBLIC: [u8; 32] = [
    0xd4, 0x35, 0x93, 0xc7, 0x15, 0xfd, 0xd3, 0x1c, 0x61, 0x14, 0x1a, 0xbd, 0x04, 0xa9, 0x9f,
    0xd6, 0x82, 0x2c, 0x85, 0x58, 0x85, 0x4c, 0xcd, 0xe3, 0x9a, 0x56, 0x84, 0xe7, 0xa5, 0x6d,
    0xa2, 0x7d,
];

fn root(i: u8) -> Vec<u8> {
    vec![i; 32]
}

struct Fixture {
    roots: Vec<Vec<u8>>,
    sig: Vec<u8>,
    auth: Vec<PermissionLevel>,
    data: Vec<u8>,
    auth_seq: Vec<(u64, u64)>,
    nodes: Vec<Checksum256>,
    path: Vec<Vec<u8>>,
}

fn fixture() -> Fixture {
    Fixture {
        roots: (0..3).map(root).collect(),
        sig: b"SIG_K1_producer".to_vec(),
        auth: vec![PermissionLevel { actor: 11, permission: 12 }],
        data: vec![1, 2, 3, 4],
        auth_seq: vec![(11, 1)],
        nodes: vec![Checksum256 { hash: [5u8; 32] }],
        path: (10..12).map(root).collect(),
    }
}

fn header(f: &Fixture) -> BlockHeaderFFI<'_> {
    BlockHeaderFFI {
        timestamp: 1,
        producer: 2,
        confirmed: 0,
        previous: Checksum256FFI { data: Some(&f.roots[0]) },
        transaction_mroot: Checksum256FFI { data: Some(&f.roots[1]) },
        action_mroot: Checksum256FFI { data: Some(&f.roots[2]) },
        schedule_version: 1,
        new_producers: None,
        header_extensions: None,
    }
}

#[test]
fn action_proof_end_to_end() {
    let f = fixture();
    let h = header(&f);
    let blocks = vec![
        SignedBlockHeaderFFI { block_header: Some(&h), producer_signature: Some(&f.sig) },
        SignedBlockHeaderFFI { block_header: Some(&h), producer_signature: Some(&f.sig) },
    ];
    let ids: Vec<Vec<u8>> = (20..25).map(root).collect();
    let id_views: Vec<Checksum256FFI> = ids.iter().map(|b| Checksum256FFI { data: Some(b) }).collect();
    let lists = vec![
        Checksum256ListFFI { ids: Some(&id_views) },
        Checksum256ListFFI { ids: Some(&id_views) },
    ];
    let path_views: Vec<Checksum256FFI> = f.path.iter().map(|b| Checksum256FFI { data: Some(b) }).collect();
    let paths = Checksum256ListFFI { ids: Some(&path_views) };
    let act = ActionFFI { account: 1, name: 2, authorization: Some(&f.auth), data: Some(&f.data) };
    let digest = Checksum256 { hash: [0xaa; 32] };
    let receipt = ActionReceiptFFI {
        receiver: 1,
        act_digest: digest,
        global_sequence: 9,
        recv_sequence: 8,
        auth_sequence: Some(&f.auth_seq),
        code_sequence: 1,
        abi_sequence: 1,
    };
    let merkle = IncrementalMerkleFFI { node_count: 1, active_nodes: Some(&f.nodes) };
    let trx = Checksum256 { hash: [0x42; 32] };
    let req = prove_action(
        Some(b"ws://127.0.0.1:9944"),
        Some(b"//Alice"),
        Some(&act),
        Some(&merkle),
        Some(&receipt),
        Some(&paths),
        Some(&blocks),
        Some(&lists),
        trx,
    )
    .unwrap();
    assert_eq!(req.url, "ws://127.0.0.1:9944");
    assert_eq!(req.signer, "//Alice");
    assert_eq!(req.args.action.authorization.len(), 1);
    assert_eq!(req.args.action_receipt.act_digest, digest);
    assert_eq!(req.args.block_headers.len(), 2);
    assert_eq!(req.args.block_ids_list.len(), 2);
    assert!(req.args.block_ids_list.iter().all(|l| l.len() == 5));
    assert_eq!(req.args.action_merkle_paths.len(), 2);
    assert_eq!(req.args.trx_id, trx);

    let identity = signing_identity(&req.signer).unwrap();
    let mut coordinator = NonceCoordinator::new();
    let nonce = coordinator.issue(&identity, 7);
    assert_eq!(nonce, Some(7));
    let mut d = Dispatcher::new();
    let action = d.on_result(Ok("0x5f3e".to_string()));
    match action {
        DispatchAction::Finish(outcome) => {
            let r = respond(&outcome);
            assert!(r.success);
            assert_eq!(r.msg, "0x5f3e");
        }
        DispatchAction::ResyncAndResubmit => panic!("a success is not retried"),
    }
}

#[test]
fn null_action_pointer_fails_before_submission() {
    let f = fixture();
    let merkle = IncrementalMerkleFFI { node_count: 1, active_nodes: Some(&f.nodes) };
    let receipt = ActionReceiptFFI {
        receiver: 1,
        act_digest: Checksum256 { hash: [0; 32] },
        global_sequence: 0,
        recv_sequence: 0,
        auth_sequence: Some(&f.auth_seq),
        code_sequence: 0,
        abi_sequence: 0,
    };
    let no_paths: Vec<Checksum256FFI> = Vec::new();
    let paths = Checksum256ListFFI { ids: Some(&no_paths) };
    let blocks: Vec<SignedBlockHeaderFFI> = Vec::new();
    let lists: Vec<Checksum256ListFFI> = Vec::new();
    let r = prove_action(
        Some(b"ws://node"),
        Some(b"//Alice"),
        None,
        Some(&merkle),
        Some(&receipt),
        Some(&paths),
        Some(&blocks),
        Some(&lists),
        Checksum256 { hash: [0; 32] },
    );
    let e = r.err().unwrap();
    assert_eq!(e, Error::NullPtr(Field::Action));
    let resp = respond(&Err(e));
    assert!(!resp.success);
    assert!(resp.msg.contains("null"));
}

#[test]
fn pointers_checked_before_any_decoding() {
    let bad = vec![0xffu8];
    let r = prove_action(Some(&bad), Some(&bad), None, None, None, None, None, None, Checksum256 { hash: [0; 32] });
    assert_eq!(r.err(), Some(Error::NullPtr(Field::Action)));
    let r = prove_action(None, None, None, None, None, None, None, None, Checksum256 { hash: [0; 32] });
    assert_eq!(r.err(), Some(Error::NullPtr(Field::NodeUrl)));
}

#[test]
fn three_headers_two_id_lists_mismatch() {
    let f = fixture();
    let h = header(&f);
    let blocks = vec![
        SignedBlockHeaderFFI { block_header: Some(&h), producer_signature: Some(&f.sig) },
        SignedBlockHeaderFFI { block_header: Some(&h), producer_signature: Some(&f.sig) },
        SignedBlockHeaderFFI { block_header: Some(&h), producer_signature: Some(&f.sig) },
    ];
    let empty: Vec<Checksum256FFI> = Vec::new();
    let lists = vec![Checksum256ListFFI { ids: Some(&empty) }, Checksum256ListFFI { ids: Some(&empty) }];
    let key = b"EOS6MRyAjQq8ud7hVNYcfnVPJqcVpscN5So8BhtHuGYqET5GDW5CV".to_vec();
    let producers = vec![ProducerKeyFFI { producer_name: 3, block_signing_key: Some(&key) }];
    let schedule = ProducerScheduleFFI { version: 4, producers: Some(&producers) };
    let merkle = IncrementalMerkleFFI { node_count: 1, active_nodes: Some(&f.nodes) };
    let r = change_schedule(
        Some(b"ws://node"),
        Some(b"//Alice"),
        Checksum256 { hash: [1; 32] },
        Some(&schedule),
        Some(&merkle),
        Some(&blocks),
        Some(&lists),
    );
    assert_eq!(r.err(), Some(Error::StructuralMismatch(3, 2)));

    let ok_lists = vec![
        Checksum256ListFFI { ids: Some(&empty) },
        Checksum256ListFFI { ids: Some(&empty) },
        Checksum256ListFFI { ids: Some(&empty) },
    ];
    let req = change_schedule(
        Some(b"ws://node"),
        Some(b"//Alice"),
        Checksum256 { hash: [1; 32] },
        Some(&schedule),
        Some(&merkle),
        Some(&blocks),
        Some(&ok_lists),
    )
    .unwrap();
    assert_eq!(req.args.schedule.version, 4);
    assert_eq!(req.args.block_headers.len(), 3);
}

#[test]
fn bundle_constructors_check_counts() {
    let f = fixture();
    let h = header(&f);
    let signed = SignedBlockHeaderFFI { block_header: Some(&h), producer_signature: Some(&f.sig) };
    let decoded = bifrost_ffi::ffi_types::DecodeForeign::decode(&signed).unwrap();
    let merkle = bifrost_ffi::chain::IncrementalMerkle { node_count: 0, active_nodes: vec![] };
    let schedule = bifrost_ffi::chain::ProducerSchedule { version: 1, producers: vec![] };
    let r = ChangeScheduleArgs::new(
        Checksum256 { hash: [0; 32] },
        schedule,
        merkle.clone(),
        vec![decoded.clone(), decoded.clone(), decoded.clone()],
        vec![vec![], vec![]],
    );
    assert_eq!(r.err(), Some(Error::StructuralMismatch(3, 2)));
    let action = bifrost_ffi::chain::Action { account: 1, name: 2, authorization: vec![], data: vec![] };
    let receipt = bifrost_ffi::chain::ActionReceipt {
        receiver: 1,
        act_digest: Checksum256 { hash: [0; 32] },
        global_sequence: 0,
        recv_sequence: 0,
        auth_sequence: vec![],
        code_sequence: 0,
        abi_sequence: 0,
    };
    let r = ProveActionArgs::new(action.clone(), receipt.clone(), vec![], merkle.clone(), vec![decoded.clone()], vec![vec![]], Checksum256 { hash: [0; 32] });
    assert!(r.is_ok());
    let r = ProveActionArgs::new(action, receipt, vec![], merkle, vec![], vec![vec![]], Checksum256 { hash: [0; 32] });
    assert_eq!(r.err(), Some(Error::StructuralMismatch(0, 1)));
}

#[test]
fn interleaved_requests_get_consecutive_nonces() {
    let id = ALICE_PUBLIC.to_vec();
    let c = 40u32;
    let mut co = NonceCoordinator::new();
    assert_eq!(co.local_nonce(&id), None);
    assert_eq!(co.acquire(&id), None);
    // three requests: each syncs with the chain's count, then acquires
    co.sync(&id, c);
    co.sync(&id, c);
    let a = co.acquire(&id).unwrap();
    co.sync(&id, c);
    let b = co.acquire(&id).unwrap();
    let d = co.acquire(&id).unwrap();
    let mut got = vec![a, b, d];
    got.sort();
    assert_eq!(got, vec![40, 41, 42]);
    assert_eq!(co.local_nonce(&id), Some(43));
    // another identity is counted on its own
    let other = vec![1u8, 2, 3];
    assert_eq!(co.issue(&other, 5), Some(5));
    assert_eq!(co.local_nonce(&id), Some(43));
    // a later chain count ahead of the local one wins
    assert_eq!(co.issue(&id, 100), Some(100));
    // a resync sets the count back to the chain's
    assert_eq!(co.reissue(&id, 90), Some(90));
    assert_eq!(co.local_nonce(&id), Some(91));
}

#[test]
fn nonce_count_stops_at_max() {
    let id = vec![9u8];
    let mut co = NonceCoordinator::new();
    assert_eq!(co.issue(&id, u32::MAX - 1), Some(u32::MAX - 1));
    assert_eq!(co.acquire(&id), None);
    assert_eq!(co.local_nonce(&id), Some(u32::MAX));
}

#[test]
fn too_low_then_success_retries_once() {
    let mut d = Dispatcher::new();
    assert!(matches!(d.on_result(Err(LedgerErrorKind::SequenceTooLow)), DispatchAction::ResyncAndResubmit));
    assert_eq!(d.attempts, 2);
    match d.on_result(Ok("0xsecond".to_string())) {
        DispatchAction::Finish(Ok(tx)) => assert_eq!(tx, "0xsecond"),
        _ => panic!("the second attempt's result is the answer"),
    }
}

#[test]
fn other_failures_are_not_retried() {
    for kind in [LedgerErrorKind::Connection, LedgerErrorKind::Rejected] {
        let mut d = Dispatcher::new();
        match d.on_result(Err(kind)) {
            DispatchAction::Finish(Err(e)) => assert_eq!(e, Error::SubxtError(kind)),
            _ => panic!("no retry"),
        }
        assert_eq!(d.attempts, 1);
    }
    let mut d = Dispatcher::new();
    assert!(matches!(d.on_result(Err(LedgerErrorKind::SequenceTooLow)), DispatchAction::ResyncAndResubmit));
    match d.on_result(Err(LedgerErrorKind::SequenceTooLow)) {
        DispatchAction::Finish(Err(e)) => assert_eq!(e, Error::SubxtError(LedgerErrorKind::SequenceTooLow)),
        _ => panic!("at most one retry"),
    }
}

#[test]
fn seed_derives_identity() {
    assert_eq!(signing_identity("//Alice").unwrap(), ALICE_PUBLIC.to_vec());
    assert_eq!(signing_identity("not a valid seed phrase"), Err(Error::WrongSudoSeed));
}

#[test]
fn latest_nonce_rules() {
    assert_eq!(next_nonce(3, 10), 10);
    assert_eq!(next_nonce(10, 10), 11);
    assert_eq!(next_nonce(12, 10), 13);
    assert_eq!(next_nonce(u32::MAX, 1), u32::MAX);
    let counter = AtomicU32::new(5);
    assert_eq!(get_latest_nonce(&counter, 9), 9);
    assert_eq!(get_latest_nonce(&counter, 2), 6);
    atomic_update_nonce(&counter, 9);
    assert_eq!(counter.load(Ordering::SeqCst), 9);
    atomic_update_nonce(&counter, 2);
    assert_eq!(counter.load(Ordering::SeqCst), 10);
}

#[test]
fn first_absent_pointer_is_named() {
    assert_eq!(check_pointers(&[]), Ok(()));
    assert_eq!(check_pointers(&[(true, Field::NodeUrl), (true, Field::Signer)]), Ok(()));
    assert_eq!(
        check_pointers(&[(true, Field::NodeUrl), (false, Field::Action), (false, Field::MerkleState)]),
        Err(Error::NullPtr(Field::Action))
    );
}
