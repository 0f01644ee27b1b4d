use abci_node::bridge::{AppError, State};
use abci_node::exec::{BlockExec, BlockHeader, Log, Receipt, RethCtx};
use abci_node::wire::{
    apphash_from, decode_eth_tx, encode_eth_tx, get_tx_sender, validate_tx_format, DecodeError,
    TransactionSigned, TxError,
};
use k256::ecdsa::SigningKey;
use sha3::{Digest, Keccak256};

fn key(seed: u8) -> SigningKey {
    SigningKey::from_slice(&[seed; 32]).expect("valid scalar")
}

fn address(k: &SigningKey) -> Vec<u8> {
    let point = k.verifying_key().to_encoded_point(false);
    keccak(&point.as_bytes()[1..])[12..].to_vec()
}

/// Sets the sender to the key's address and signs the unsigned bytes.
fn sign(mut tx: TransactionSigned, k: &SigningKey) -> TransactionSigned {
    tx.sender = address(k);
    tx.signature = vec![];
    let hash = keccak(&encode_eth_tx(&tx));
    let (sig, id) = k.sign_prehash_recoverable(&hash).expect("signs");
    let mut bytes = sig.to_bytes().to_vec();
    bytes.push(id.to_byte() + if tx.tx_type > 0x7f { 27 } else { 0 });
    tx.signature = bytes;
    tx
}

fn copy(tx: &TransactionSigned) -> TransactionSigned {
    TransactionSigned {
        tx_type: tx.tx_type,
        nonce: tx.nonce,
        gas_limit: tx.gas_limit,
        gas_price: tx.gas_price,
        value: tx.value,
        to: tx.to.clone(),
        sender: tx.sender.clone(),
        input: tx.input.clone(),
        signature: tx.signature.clone(),
    }
}

fn typed_tx(nonce: u64, gas_limit: u64) -> TransactionSigned {
    let tx = TransactionSigned {
        tx_type: 2,
        nonce,
        gas_limit,
        gas_price: 7,
        value: 1000,
        to: Some(vec![0x11; 20]),
        sender: vec![0x22; 20],
        input: vec![1, 2, 3],
        signature: vec![],
    };
    sign(tx, &key(1))
}

fn legacy_tx() -> TransactionSigned {
    let tx = TransactionSigned {
        tx_type: 0xf8,
        nonce: 0x0102030405060708,
        gas_limit: 50_000,
        gas_price: 1,
        value: u64::MAX,
        to: None,
        sender: vec![0x33; 20],
        input: vec![],
        signature: vec![],
    };
    sign(tx, &key(2))
}

fn same(a: &TransactionSigned, b: &TransactionSigned) -> bool {
    a.tx_type == b.tx_type
        && a.nonce == b.nonce
        && a.gas_limit == b.gas_limit
        && a.gas_price == b.gas_price
        && a.value == b.value
        && a.to == b.to
        && a.sender == b.sender
        && a.input == b.input
        && a.signature == b.signature
}

fn keccak(data: &[u8]) -> [u8; 32] {
    Keccak256::digest(data).into()
}

fn header(height: i64) -> BlockHeader {
    BlockHeader { height, time: 1_700_000_000, proposer: vec![0x44; 20] }
}

fn fresh() -> State {
    State::new(RethCtx::open("./data/test"))
}

#[test]
fn round_trip_typed() {
    let tx = typed_tx(9, 21000);
    let raw = encode_eth_tx(&tx);
    let back = decode_eth_tx(&raw).ok().expect("decodes");
    assert!(same(&tx, &back));
}

#[test]
fn round_trip_legacy() {
    let tx = legacy_tx();
    let raw = encode_eth_tx(&tx);
    assert_eq!(raw[0], 0xf8);
    let back = decode_eth_tx(&raw).ok().expect("decodes");
    assert!(same(&tx, &back));
}

#[test]
fn encoding_layout() {
    let raw = encode_eth_tx(&typed_tx(0x0a0b, 21000));
    assert_eq!(raw.len(), 1 + 32 + 21 + 20 + 8 + 3 + 65);
    assert_eq!(raw[0], 2);
    assert_eq!(&raw[1..9], &[0, 0, 0, 0, 0, 0, 0x0a, 0x0b]);
    assert_eq!(raw[33], 1);
    assert_eq!(&raw[34..54], &[0x11; 20][..]);
    assert_eq!(&raw[74..82], &[0, 0, 0, 0, 0, 0, 0, 3]);
    assert_eq!(&raw[82..85], &[1, 2, 3]);
    assert!(raw[149] <= 1);
}

#[test]
fn decode_errors() {
    assert!(matches!(decode_eth_tx(&[]), Err(DecodeError::Truncated)));
    let good = encode_eth_tx(&typed_tx(1, 21000));
    let mut bad_flag = good.clone();
    bad_flag[33] = 2;
    assert!(matches!(decode_eth_tx(&bad_flag), Err(DecodeError::BadRecipientFlag)));
    assert!(matches!(decode_eth_tx(&good[..60]), Err(DecodeError::Truncated)));
    let mut longer = good.clone();
    longer.push(0);
    assert!(matches!(decode_eth_tx(&longer), Err(DecodeError::LengthMismatch)));
    assert!(matches!(decode_eth_tx(&good[..good.len() - 1]), Err(DecodeError::LengthMismatch)));
}

#[test]
fn any_high_leading_byte_is_legacy() {
    for first in [0x80u8, 0xc0, 0xf8, 0xff] {
        let mut tx = legacy_tx();
        tx.tx_type = first;
        let tx = sign(tx, &key(2));
        let raw = encode_eth_tx(&tx);
        assert_eq!(raw[0], first);
        let back = decode_eth_tx(&raw).ok().expect("decodes");
        assert!(same(&tx, &back));
        assert!(get_tx_sender(&back).is_ok());
    }
    let mut typed = typed_tx(1, 21000);
    typed.tx_type = 0x7f;
    assert!(matches!(get_tx_sender(&typed), Err(TxError::InvalidSignature)));
    let typed = sign(typed, &key(1));
    assert!(get_tx_sender(&typed).is_ok());
}

#[test]
fn format_validation() {
    assert!(validate_tx_format(&encode_eth_tx(&typed_tx(1, 21000))));
    assert!(validate_tx_format(&encode_eth_tx(&legacy_tx())));
    assert!(!validate_tx_format(&[0xff, 1, 2]));
}

#[test]
fn sender_needs_wellformed_signature() {
    let tx = typed_tx(1, 21000);
    assert_eq!(get_tx_sender(&tx).ok().expect("sender"), address(&key(1)));
    assert_ne!(address(&key(1)), address(&key(2)));
    let mut tampered = typed_tx(1, 21000);
    tampered.value += 1;
    assert!(matches!(get_tx_sender(&tampered), Err(TxError::InvalidSignature)));
    let mut other_sender = typed_tx(1, 21000);
    other_sender.sender = address(&key(2));
    assert!(matches!(get_tx_sender(&other_sender), Err(TxError::InvalidSignature)));
    let mut wrong_v = typed_tx(1, 21000);
    wrong_v.signature[64] = 27;
    assert!(matches!(get_tx_sender(&wrong_v), Err(TxError::InvalidSignature)));
    let mut zero_r = typed_tx(1, 21000);
    for b in zero_r.signature[0..32].iter_mut() {
        *b = 0;
    }
    assert!(matches!(get_tx_sender(&zero_r), Err(TxError::InvalidSignature)));
}

#[test]
fn apphash_is_keccak_of_both_roots() {
    let a = [1u8; 32];
    let b = [2u8; 32];
    let mut both = a.to_vec();
    both.extend_from_slice(&b);
    let h = apphash_from(a, b);
    assert_eq!(h, keccak(&both));
    assert_ne!(h, [3u8; 32]);
    assert_ne!(apphash_from(b, a), h);
}

#[test]
fn check_tx_rejects_zero_gas_limit() {
    let st = fresh();
    let r = st.check_tx(&encode_eth_tx(&typed_tx(1, 0)));
    assert_ne!(r.code, 0);
    assert!(matches!(r.error, Some(TxError::ZeroGasLimit)));
}

#[test]
fn check_tx_accepts_valid() {
    let st = fresh();
    let r = st.check_tx(&encode_eth_tx(&typed_tx(1, 21000)));
    assert_eq!(r.code, 0);
    assert_eq!(r.gas_wanted, 100_000);
    assert!(r.error.is_none());
}

#[test]
fn check_tx_rejects_malformed_and_bad_signature() {
    let st = fresh();
    let r = st.check_tx(&[1, 2, 3]);
    assert_eq!(r.code, 1);
    assert!(matches!(r.error, Some(TxError::Decode(DecodeError::Truncated))));
    let mut tx = typed_tx(1, 21000);
    tx.signature[64] = 5;
    let r = st.check_tx(&encode_eth_tx(&tx));
    assert_eq!(r.code, 1);
    assert!(matches!(r.error, Some(TxError::InvalidSignature)));
}

#[test]
fn block_with_valid_then_malformed_tx() {
    let mut st = fresh();
    assert_eq!(st.info().0, 1);
    assert!(st.begin_block(Some(header(1))).is_ok());
    let tx_a = encode_eth_tx(&typed_tx(1, 21000));
    let ra = st.deliver_tx(&tx_a).ok().expect("session open");
    assert_eq!(ra.code, 0);
    assert_eq!(ra.gas_used, 21000);
    let rb = st.deliver_tx(&[0xde, 0xad]).ok().expect("session open");
    assert_ne!(rb.code, 0);
    assert_eq!(rb.gas_used, 0);
    let c = st.commit().ok().expect("commits");

    let mut state_input = vec![0u8; 32];
    state_input.extend_from_slice(&tx_a);
    let state_root = keccak(&state_input);
    let mut receipt_input = vec![0u8; 32];
    receipt_input.push(1);
    receipt_input.extend_from_slice(&21000u64.to_be_bytes());
    receipt_input.extend_from_slice(&0u64.to_be_bytes());
    let receipts_root = keccak(&receipt_input);
    assert_eq!(c.app_hash, apphash_from(state_root, receipts_root));
    assert_eq!(c.retain_height, 0);
    let (height, hash) = st.info();
    assert_eq!(height, 2);
    assert_eq!(hash, c.app_hash);
}

#[test]
fn deliver_reports_events() {
    let mut st = fresh();
    st.begin_block(Some(header(1))).ok().expect("opens");
    let r = st.deliver_tx(&encode_eth_tx(&typed_tx(1, 21000))).ok().expect("open");
    assert_eq!(r.events.len(), 1);
    assert_eq!(r.events[0].kind, "ethereum.tx");
    assert_eq!(r.events[0].attributes[0].key, "success");
    assert_eq!(r.events[0].attributes[0].value, "true");
    assert!(r.events[0].attributes[0].index);
    assert_eq!(r.events[0].attributes[1].key, "gas_used");
    assert_eq!(r.events[0].attributes[1].value, "21000");
    assert!(!r.events[0].attributes[1].index);
}

#[test]
fn receipt_events_with_logs() {
    let receipt = Receipt {
        success: false,
        gas_used: 1234567,
        logs: vec![
            Log { address: vec![0xab, 0x01, 0xff], topics: vec![], data: vec![] },
            Log { address: vec![0x00], topics: vec![vec![1]], data: vec![2] },
        ],
    };
    let events = receipt.into_abci_events();
    assert_eq!(events.len(), 3);
    assert_eq!(events[0].attributes[0].value, "false");
    assert_eq!(events[0].attributes[1].value, "1234567");
    assert_eq!(events[1].kind, "ethereum.log");
    assert_eq!(events[1].attributes[0].key, "address");
    assert_eq!(events[1].attributes[0].value, "ab01ff");
    assert_eq!(events[2].attributes[0].value, "00");
}

#[test]
fn receipt_ok_is_transfer() {
    let r = Receipt::ok();
    assert!(r.success);
    assert_eq!(r.gas_used, 21000);
    assert!(r.logs.is_empty());
}

#[test]
fn commit_without_session_is_refused() {
    let mut st = fresh();
    let before = st.info();
    assert!(matches!(st.commit(), Err(AppError::NoOpenSession)));
    assert_eq!(st.info(), before);
    assert_eq!(before.0, 1);
}

#[test]
fn deliver_without_session_is_refused() {
    let mut st = fresh();
    let raw = encode_eth_tx(&typed_tx(1, 21000));
    assert!(matches!(st.deliver_tx(&raw), Err(AppError::NoOpenSession)));
}

#[test]
fn begin_block_phase_errors() {
    let mut st = fresh();
    assert!(matches!(st.begin_block(None), Err(AppError::MissingHeader)));
    assert!(matches!(st.begin_block(Some(header(0))), Err(AppError::InvalidHeader)));
    assert!(matches!(st.begin_block(Some(header(2))), Err(AppError::InvalidHeader)));
    assert!(st.begin_block(Some(header(1))).is_ok());
    assert!(matches!(st.begin_block(Some(header(1))), Err(AppError::SessionAlreadyOpen)));
}

#[test]
fn process_proposal_rejects_undecodable_entry() {
    let st = fresh();
    let good = encode_eth_tx(&typed_tx(1, 21000));
    let txs = vec![good.clone(), vec![0x99], good.clone()];
    assert!(!st.process_proposal(&txs));
    assert!(!st.process_proposal(&txs));
    assert!(st.process_proposal(&vec![good.clone(), encode_eth_tx(&legacy_tx())]));
    assert!(st.process_proposal(&vec![]));
}

#[test]
fn height_advances_by_one_per_commit() {
    let mut st = fresh();
    for h in 1..=3i64 {
        assert!(st.commit().is_err());
        assert_eq!(st.info().0, h);
        assert!(st.begin_block(Some(header(h + 1))).is_err());
        st.begin_block(Some(header(h))).ok().expect("opens");
        assert_eq!(st.info().0, h);
        st.deliver_tx(&encode_eth_tx(&typed_tx(h as u64, 21000))).ok().expect("open");
        assert_eq!(st.info().0, h);
        st.commit().ok().expect("commits");
        assert_eq!(st.info().0, h + 1);
    }
}

#[test]
fn commit_at_largest_height_is_refused() {
    let mut st = State::restore(RethCtx::open("x"), i64::MAX, [0u8; 32]);
    st.begin_block(Some(header(i64::MAX))).ok().expect("opens");
    assert!(matches!(st.commit(), Err(AppError::HeightOverflow)));
    assert_eq!(st.info().0, i64::MAX);
}

#[test]
fn identical_runs_give_identical_app_hash() {
    let txs = vec![
        encode_eth_tx(&typed_tx(1, 21000)),
        vec![0x01],
        encode_eth_tx(&legacy_tx()),
        encode_eth_tx(&typed_tx(2, 0)),
    ];
    let run = || {
        let mut st = fresh();
        st.begin_block(Some(header(1))).ok().expect("opens");
        let codes: Vec<u32> = txs.iter().map(|t| st.deliver_tx(t).ok().expect("open").code).collect();
        (codes, st.commit().ok().expect("commits").app_hash)
    };
    let (c1, h1) = run();
    let (c2, h2) = run();
    assert_eq!(c1, vec![0, 1, 0, 1]);
    assert_eq!(c1, c2);
    assert_eq!(h1, h2);
}

#[test]
fn order_of_transactions_matters() {
    let a = encode_eth_tx(&typed_tx(1, 21000));
    let b = encode_eth_tx(&legacy_tx());
    let hash_of = |first: &Vec<u8>, second: &Vec<u8>| {
        let mut st = fresh();
        st.begin_block(Some(header(1))).ok().expect("opens");
        st.deliver_tx(first).ok().expect("open");
        st.deliver_tx(second).ok().expect("open");
        st.commit().ok().expect("commits").app_hash
    };
    assert_ne!(hash_of(&a, &b), hash_of(&b, &a));
}

#[test]
fn empty_block_commits_zero_roots() {
    let mut st = fresh();
    st.begin_block(Some(header(1))).ok().expect("opens");
    let c = st.commit().ok().expect("commits");
    assert_eq!(c.app_hash, keccak(&[0u8; 64]));
}

#[test]
fn block_gas_limit_is_enforced() {
    let ctx = RethCtx::open("x");
    let mut exec = BlockExec::new(&ctx, header(1));
    let tx = typed_tx(1, 21000);
    for _ in 0..1428u64 {
        assert!(exec.apply_tx(&ctx, copy(&tx)).is_ok());
    }
    assert!(matches!(exec.apply_tx(&ctx, copy(&tx)), Err(TxError::BlockGasExceeded)));
    let fin = exec.commit();
    assert_eq!(fin.gas_used, 1428 * 21000);
    assert_eq!(fin.timestamp, 1_700_000_000);
}

#[test]
fn validate_basic_and_context() {
    let ctx = RethCtx::open("./data/reth");
    assert_eq!(ctx.db_path, "./data/reth");
    assert_eq!(ctx.chain_id, 777);
    assert!(ctx.validate_tx_basic(&typed_tx(1, 1)).is_ok());
    assert!(matches!(ctx.validate_tx_basic(&typed_tx(1, 0)), Err(TxError::ZeroGasLimit)));
    assert!(ctx.propose_block(1 << 20).txs.is_empty());
    let st = State::new(ctx);
    let q = st.query("/store", &[1]);
    assert_eq!(q.code, 0);
    assert!(q.value.is_empty());
    assert_eq!(q.height, 1);
    assert!(st.prepare_proposal(100).txs.is_empty());
}

#[test]
fn execute_block_matches_step_by_step() {
    let txs = vec![
        encode_eth_tx(&typed_tx(1, 21000)),
        vec![0x01],
        encode_eth_tx(&legacy_tx()),
    ];
    let mut stepwise = fresh();
    stepwise.begin_block(Some(header(1))).ok().expect("opens");
    for t in txs.iter() {
        stepwise.deliver_tx(t).ok().expect("open");
    }
    let expected = stepwise.commit().ok().expect("commits").app_hash;

    let mut whole = fresh();
    let (resps, c) = whole.execute_block(header(1), &txs).ok().expect("runs");
    assert_eq!(resps.iter().map(|r| r.code).collect::<Vec<u32>>(), vec![0, 1, 0]);
    assert_eq!(c.app_hash, expected);
    assert_eq!(whole.info(), (2, expected));
    assert!(matches!(whole.execute_block(header(1), &txs), Err(AppError::InvalidHeader)));
    assert_eq!(whole.info(), (2, expected));
}
