use t2z::address::{classify_address, AddressKind, TransparentReceiver};
use t2z::boundary::{last_error_bytes, ResultCode};
use t2z::error::{FfiError, ProposalError, VerificationFailure};
use t2z::calculate_fee;
use t2z::presign::check_outputs;
use t2z::proposal::plan_transaction;
use t2z::types::{
    parse_transparent_inputs, serialize_transparent_inputs, InputCodecError, InputField, Payment,
    TransactionRequest, TransparentInput,
};
use t2z::TxOutput;
use zcash_protocol::consensus::NetworkType;
use zcash_transparent::address::TransparentAddress;

const TRANSPARENT: &str = "tm9iMLAuYMzJ6jtFLcA7rzUmfreGuKvr7Ma";

/// A second valid test-network transparent address.
fn transparent_2() -> String {
    let secp = secp256k1::Secp256k1::new();
    let sk = secp256k1::SecretKey::from_slice(&[2u8; 32]).unwrap();
    let pk = secp256k1::PublicKey::from_secret_key(&secp, &sk);
    TransparentAddress::from_pubkey(&pk).to_zcash_address(NetworkType::Test).encode()
}

fn pubkey(seed: u8) -> [u8; 33] {
    let secp = secp256k1::Secp256k1::new();
    let sk = secp256k1::SecretKey::from_slice(&[seed; 32]).unwrap();
    secp256k1::PublicKey::from_secret_key(&secp, &sk).serialize()
}

fn input(seed: u8, amount: u64, script: Vec<u8>) -> TransparentInput {
    TransparentInput { pubkey: pubkey(seed), txid: [seed; 32], vout: seed as u32, amount, script_pubkey: script }
}

fn script_of(address: &str) -> Vec<u8> {
    match classify_address(address) {
        AddressKind::Transparent(t) => t.script(),
        _ => panic!("not transparent"),
    }
}

#[test]
fn fee_floor() {
    assert_eq!(calculate_fee(0, 0, 0), 10_000);
}

#[test]
fn fee_literals() {
    assert_eq!(calculate_fee(1, 2, 0), 10_000);
    assert_eq!(calculate_fee(1, 1, 1), 15_000);
}

#[test]
fn fee_pads_odd_shielded_counts() {
    assert_eq!(calculate_fee(1, 1, 1), calculate_fee(1, 1, 2));
    assert_eq!(calculate_fee(1, 1, 3), calculate_fee(1, 1, 4));
    // An even count is not padded: one more output costs two more actions.
    assert_eq!(calculate_fee(1, 1, 2), 15_000);
    assert_eq!(calculate_fee(1, 1, 3), 25_000);
}

#[test]
fn fee_uses_larger_transparent_side() {
    assert_eq!(calculate_fee(5, 3, 0), 25_000);
    assert_eq!(calculate_fee(2, 7, 0), 35_000);
    assert_eq!(calculate_fee(3, 1, 2), 25_000);
}

#[test]
fn codec_round_trip() {
    let inputs = vec![input(1, 5, vec![1, 2, 3]), input(2, u64::MAX, vec![]), input(3, 0, vec![9; 300])];
    let bytes = serialize_transparent_inputs(&inputs);
    assert_eq!(&bytes[0..2], &[3, 0]);
    assert_eq!(bytes.len(), 2 + 3 * 79 + 3 + 0 + 300);
    let back = parse_transparent_inputs(&bytes).unwrap();
    assert_eq!(back, inputs);
}

#[test]
fn codec_exact_layout() {
    let one = input(7, 0x0102030405060708, vec![0xaa, 0xbb]);
    let bytes = serialize_transparent_inputs(&[one.clone()]);
    assert_eq!(&bytes[2..35], &one.pubkey[..]);
    assert_eq!(&bytes[35..67], &[7u8; 32][..]);
    assert_eq!(&bytes[67..71], &[7, 0, 0, 0]);
    assert_eq!(&bytes[71..79], &[8, 7, 6, 5, 4, 3, 2, 1]);
    assert_eq!(&bytes[79..81], &[2, 0]);
    assert_eq!(&bytes[81..], &[0xaa, 0xbb]);
}

#[test]
fn codec_empty_buffer_is_empty_list() {
    assert_eq!(parse_transparent_inputs(&[]).unwrap(), vec![]);
    assert_eq!(serialize_transparent_inputs(&[]), vec![0, 0]);
    assert_eq!(parse_transparent_inputs(&[0, 0]).unwrap(), vec![]);
}

#[test]
fn codec_truncation_names_field() {
    assert_eq!(
        parse_transparent_inputs(&[1]),
        Err(InputCodecError::Truncated { index: 0, field: InputField::Header })
    );
    let bytes = serialize_transparent_inputs(&[input(1, 5, vec![1, 2, 3]), input(2, 6, vec![4])]);
    let cases = [
        (3usize, 0usize, InputField::Pubkey),
        (2 + 40, 0, InputField::Txid),
        (2 + 66, 0, InputField::Vout),
        (2 + 70, 0, InputField::Amount),
        (2 + 78, 0, InputField::ScriptLength),
        (2 + 80, 0, InputField::Script),
        (2 + 82 + 10, 1, InputField::Pubkey),
    ];
    for (len, index, field) in cases {
        assert_eq!(
            parse_transparent_inputs(&bytes[..len]),
            Err(InputCodecError::Truncated { index, field })
        );
    }
}

#[test]
fn codec_rejects_invalid_key() {
    let mut bytes = serialize_transparent_inputs(&[input(1, 5, vec![])]);
    for b in bytes[2..35].iter_mut() {
        *b = 0;
    }
    assert_eq!(parse_transparent_inputs(&bytes), Err(InputCodecError::InvalidPublicKey { index: 0 }));
}

#[test]
fn classify_transparent_address() {
    match classify_address(TRANSPARENT) {
        AddressKind::Transparent(TransparentReceiver::PublicKeyHash(h)) => {
            let script = TransparentReceiver::PublicKeyHash(h).script();
            assert_eq!(script.len(), 25);
            assert_eq!(&script[..3], &[0x76, 0xa9, 0x14]);
            assert_eq!(&script[3..23], &h[..]);
            assert_eq!(&script[23..], &[0x88, 0xac]);
        }
        other => panic!("unexpected {:?}", other),
    }
}

#[test]
fn classify_invalid_address() {
    assert_eq!(classify_address("t1transparent"), AddressKind::Invalid);
    assert_eq!(classify_address(""), AddressKind::Invalid);
}

#[test]
fn script_hash_script() {
    let script = TransparentReceiver::ScriptHash([5u8; 20]).script();
    let mut expected = vec![0xa9, 0x14];
    expected.extend_from_slice(&[5u8; 20]);
    expected.push(0x87);
    assert_eq!(script, expected);
}

#[test]
fn plan_adds_change() {
    let inputs = vec![input(1, 100_000_000, vec![])];
    let request = TransactionRequest::new(vec![Payment::new(TRANSPARENT.to_string(), 100_000)]);
    let plan = plan_transaction(inputs, &request, None).unwrap();
    assert_eq!(plan.estimated_fee, 10_000);
    assert_eq!(plan.change, Some(99_890_000));
    assert_eq!(plan.transparent_outputs.len(), 2);
    assert_eq!(plan.transparent_outputs[0].amount, 100_000);
    assert_eq!(plan.transparent_outputs[1].amount, 99_890_000);
    assert!(plan.orchard_outputs.is_empty());
}

#[test]
fn plan_without_change() {
    let inputs = vec![input(1, 110_000, vec![])];
    let request = TransactionRequest::new(vec![Payment::new(TRANSPARENT.to_string(), 100_000)]);
    let plan = plan_transaction(inputs, &request, None).unwrap();
    assert_eq!(plan.change, None);
    assert_eq!(plan.transparent_outputs.len(), 1);
}

#[test]
fn plan_change_to_given_address() {
    let inputs = vec![input(1, 1_000_000, vec![])];
    let request = TransactionRequest::new(vec![Payment::new(TRANSPARENT.to_string(), 100_000)]);
    let plan = plan_transaction(inputs, &request, Some(transparent_2().as_str())).unwrap();
    assert_eq!(plan.change, Some(890_000));
    assert_eq!(plan.transparent_outputs[1].receiver.script(), script_of(&transparent_2()));
}

#[test]
fn plan_errors() {
    let request = TransactionRequest::new(vec![]);
    assert!(matches!(plan_transaction(vec![], &request, None), Err(ProposalError::InvalidRequest(_))));
    let request = TransactionRequest::new(vec![Payment::new("bogus".to_string(), 1)]);
    assert!(matches!(plan_transaction(vec![], &request, None), Err(ProposalError::InvalidAddress(_))));
    let request = TransactionRequest::new(vec![Payment::new(TRANSPARENT.to_string(), 2_100_000_000_000_001)]);
    assert!(matches!(plan_transaction(vec![], &request, None), Err(ProposalError::InvalidRequest(_))));
    let request = TransactionRequest::new(vec![Payment::new(TRANSPARENT.to_string(), 1)]);
    let inputs = vec![input(1, 1_000_000, vec![])];
    assert!(matches!(plan_transaction(inputs, &request, Some("bogus")), Err(ProposalError::InvalidAddress(_))));
}

fn out(address: &str, value: u64) -> TxOutput {
    TxOutput { script_pubkey: script_of(address), value }
}

#[test]
fn check_accepts_matching_outputs() {
    let request = TransactionRequest::new(vec![Payment::new(TRANSPARENT.to_string(), 1000)]);
    let outputs = vec![out(TRANSPARENT, 1000), out(&transparent_2(), 500)];
    assert_eq!(check_outputs(&outputs, 0, &request, &[]), Ok(()));
    assert_eq!(check_outputs(&outputs, 0, &request, &[out(&transparent_2(), 500)]), Ok(()));
}

#[test]
fn check_rejections() {
    let request = TransactionRequest::new(vec![Payment::new(TRANSPARENT.to_string(), 1000)]);
    // Too few outputs.
    assert!(matches!(check_outputs(&[], 0, &request, &[]), Err(VerificationFailure::OutputMismatch(_))));
    // Expected change not present.
    let outputs = vec![out(TRANSPARENT, 1000), out(&transparent_2(), 500)];
    assert_eq!(
        check_outputs(&outputs, 0, &request, &[out(&transparent_2(), 501)]),
        Err(VerificationFailure::ChangeMismatch)
    );
    // Payment amount differs.
    let outputs = vec![out(TRANSPARENT, 999)];
    assert_eq!(
        check_outputs(&outputs, 0, &request, &[]),
        Err(VerificationFailure::OutputMismatch(TRANSPARENT.to_string()))
    );
    // Shielded payment without shielded actions.
    let outputs = vec![out(TRANSPARENT, 1000)];
    let shielded = TransactionRequest::new(vec![Payment::new(
        "utest1invalid".to_string(),
        1000,
    )]);
    assert!(matches!(check_outputs(&outputs, 0, &shielded, &[]), Err(VerificationFailure::OutputMismatch(_))));
}

#[test]
fn check_fee_bound() {
    // Two equal payments found in one output: the outputs fall 1000 short of 2000.
    let request = TransactionRequest::new(vec![
        Payment::new(TRANSPARENT.to_string(), 1000),
        Payment::new(TRANSPARENT.to_string(), 1000),
    ]);
    let outputs = vec![out(TRANSPARENT, 1000), out(&transparent_2(), 0)];
    assert_eq!(check_outputs(&outputs, 0, &request, &[]), Err(VerificationFailure::InvalidFee));
    // Short by exactly 1% passes.
    let outputs = vec![out(TRANSPARENT, 1000), out(&transparent_2(), 980)];
    assert_eq!(check_outputs(&outputs, 0, &request, &[]), Ok(()));
    // Short by more than 1% fails.
    let outputs = vec![out(TRANSPARENT, 1000), out(&transparent_2(), 979)];
    assert_eq!(check_outputs(&outputs, 0, &request, &[]), Err(VerificationFailure::InvalidFee));
    // With shielded actions the bound is not checked.
    let outputs = vec![out(TRANSPARENT, 1000), out(&transparent_2(), 0)];
    assert_eq!(check_outputs(&outputs, 2, &request, &[]), Ok(()));
}

#[test]
fn last_error_retrieval() {
    assert_eq!(last_error_bytes(None, 8), Ok(vec![0]));
    assert_eq!(last_error_bytes(None, 0), Err(ResultCode::ErrorBufferTooSmall));
    assert_eq!(last_error_bytes(Some(b"abc"), 4), Ok(vec![b'a', b'b', b'c', 0]));
    assert_eq!(last_error_bytes(Some(b"abc"), 3), Err(ResultCode::ErrorBufferTooSmall));
    assert_eq!(last_error_bytes(Some(b"a\0c"), 512), Err(ResultCode::ErrorInvalidUtf8));
}

#[test]
fn result_codes() {
    assert_eq!(ResultCode::Success.code(), 0);
    assert_eq!(ResultCode::ErrorNotImplemented.code(), 99);
    assert_eq!(FfiError::Proposal(ProposalError::NoInputs).result_code(), ResultCode::ErrorProposal);
    assert_eq!(FfiError::BufferTooSmall.result_code().code(), 3);
}
