use t2z::error::{CombineError, ProposalError, SignatureError};
use t2z::types::{serialize_transparent_inputs, Payment, SigHash, TransactionRequest, TransparentInput};
use t2z::{
    append_signature, combine, finalize_and_extract, get_sighash, parse_pczt, propose_transaction,
    prove_transaction, serialize_pczt, verify_before_signing, ProvingContext,
};
use orchard::keys::{FullViewingKey, Scope, SpendingKey};
use pczt::roles::signer::Signer;
use zcash_address::unified::{Address, Encoding, Receiver};
use zcash_transparent::address::{Script, TransparentAddress};

const TRANSPARENT: &str = "tm9iMLAuYMzJ6jtFLcA7rzUmfreGuKvr7Ma";
const TRANSPARENT_2: &str = "tmBsTi2xWTjUdEXnuTceL7fecEQKeWi4vxA";
const SMALL: u64 = 100_000;
const MEDIUM: u64 = 1_000_000;
const ONE_ZEC: u64 = 100_000_000;

/// SHA-256 of "test transaction for t2z".
const TXID: [u8; 32] = [
    119, 11, 173, 97, 239, 12, 157, 253, 93, 8, 206, 211, 216, 210, 130, 219, 28, 113, 165, 105,
    148, 136, 42, 119, 230, 103, 231, 225, 114, 213, 53, 184,
];

fn unified_orchard() -> String {
    let sk = SpendingKey::from_bytes([42u8; 32]).unwrap();
    let fvk = FullViewingKey::from(&sk);
    let addr = fvk.address_at(0u32, Scope::External);
    let ua = Address::try_from_items(vec![Receiver::Orchard(addr.to_raw_address_bytes())]).unwrap();
    ua.encode(&zcash_protocol::consensus::NetworkType::Test)
}

fn simple_payment_request() -> TransactionRequest {
    TransactionRequest::new(vec![Payment::new(TRANSPARENT.to_string(), SMALL)])
}

fn shielded_payment_request() -> TransactionRequest {
    TransactionRequest::new(vec![Payment::new(unified_orchard(), MEDIUM)])
}

fn multi_payment_request() -> TransactionRequest {
    TransactionRequest::new(vec![
        Payment::new(TRANSPARENT.to_string(), SMALL),
        Payment::new(TRANSPARENT_2.to_string(), SMALL),
    ])
}

fn payment_with_memo() -> Payment {
    Payment::new(unified_orchard(), SMALL).with_memo("Test payment".to_string())
}

fn secret_key() -> secp256k1::SecretKey {
    secp256k1::SecretKey::from_slice(&[1u8; 32]).unwrap()
}

fn test_input() -> TransparentInput {
    let secp = secp256k1::Secp256k1::new();
    let pubkey = secp256k1::PublicKey::from_secret_key(&secp, &secret_key());
    let script: Script = TransparentAddress::from_pubkey(&pubkey).script().into();
    let mut prefixed = Vec::new();
    script.write(&mut prefixed).unwrap();
    TransparentInput {
        pubkey: pubkey.serialize(),
        txid: TXID,
        vout: 0,
        amount: ONE_ZEC,
        script_pubkey: prefixed[1..].to_vec(),
    }
}

fn sample_transparent_inputs() -> Vec<u8> {
    serialize_transparent_inputs(&[test_input()])
}

fn sign(pczt: &pczt::Pczt, index: usize) -> [u8; 64] {
    let sighash = get_sighash(pczt, index).expect("Failed to get sighash");
    let secp = secp256k1::Secp256k1::signing_only();
    let msg = secp256k1::Message::from_digest(*sighash.as_bytes());
    secp.sign_ecdsa(&msg, &secret_key()).serialize_compact()
}

fn mock_verify_signature(_sighash: &[u8; 32], _signature: &[u8; 64]) -> bool {
    true
}

#[test]
fn test_mock_signature_verification() {
    let sighash = [1u8; 32];
    let signature = [2u8; 64];
    assert!(mock_verify_signature(&sighash, &signature));
}

#[test]
fn test_transaction_request_total_amount() {
    let payments = vec![
        Payment::new("t1address".to_string(), 1000),
        Payment::new("u1address".to_string(), 2000),
    ];
    let request = TransactionRequest::new(payments);
    assert_eq!(request.total_amount(), 3000);
}

#[test]
fn test_simple_payment_request() {
    let request = simple_payment_request();
    assert_eq!(request.payments.len(), 1);
    assert_eq!(request.total_amount(), SMALL);
}

#[test]
fn fixtures_test_multi_payment_request() {
    let request = multi_payment_request();
    assert_eq!(request.payments.len(), 2);
    assert_eq!(request.total_amount(), SMALL * 2);
}

#[test]
fn fixtures_test_payment_address_detection() {
    let t_payment = Payment::new(TRANSPARENT.to_string(), 1000);
    assert!(t_payment.is_transparent());
    assert!(!t_payment.is_unified());

    let u_payment = Payment::new(unified_orchard(), 1000);
    assert!(u_payment.is_unified());
    assert!(!u_payment.is_transparent());
}

#[test]
fn test_payment_request_creation() {
    let request = simple_payment_request();
    assert_eq!(request.payments.len(), 1);
    assert_eq!(request.total_amount(), SMALL);
    assert!(!request.has_shielded_outputs());
}

#[test]
fn test_shielded_payment_request() {
    let request = shielded_payment_request();
    assert_eq!(request.payments.len(), 1);
    assert!(!request.payments[0].is_transparent());
}

#[test]
fn integration_test_test_multi_payment_request() {
    let request = multi_payment_request();
    assert_eq!(request.payments.len(), 2);
    assert_eq!(request.total_amount(), SMALL * 2);
}

#[test]
fn test_propose_transaction() {
    let request = simple_payment_request();
    let inputs = sample_transparent_inputs();
    match propose_transaction(&inputs, request.clone(), None) {
        Ok(pczt) => {
            let serialized = serialize_pczt(&pczt).unwrap();
            assert!(!serialized.is_empty(), "PCZT should serialize to non-empty bytes");
            let parsed_back = parse_pczt(&serialized);
            assert!(parsed_back.is_ok(), "PCZT should parse back correctly");
        }
        Err(e) => panic!("propose_transaction failed: {:?}", e),
    }
}

#[test]
fn test_pczt_serialization_roundtrip() {
    let request = simple_payment_request();
    let inputs = sample_transparent_inputs();
    let pczt = propose_transaction(&inputs, request, None).expect("Failed to propose");
    let serialized = serialize_pczt(&pczt).unwrap();
    assert!(!serialized.is_empty(), "Serialized PCZT should not be empty");
    let deserialized = parse_pczt(&serialized).expect("Failed to parse serialized PCZT");
    let reserialized = serialize_pczt(&deserialized).unwrap();
    assert_eq!(serialized, reserialized, "Serialization should be deterministic and roundtrip correctly");
}

#[test]
fn test_parse_invalid_pczt() {
    let invalid_data = vec![0xFF; 100];
    let result = parse_pczt(&invalid_data);
    assert!(result.is_err());
}

#[test]
fn test_payment_with_memo() {
    let payment = payment_with_memo();
    assert!(payment.memo.is_some());
    assert_eq!(payment.memo.unwrap(), "Test payment");
}

#[test]
fn test_transaction_request_builder() {
    let request = TransactionRequest::new(vec![Payment::new(TRANSPARENT.to_string(), SMALL)
        .with_label("Alice".to_string())
        .with_message("Coffee payment".to_string())])
    .with_memo("Batch payment".to_string());
    assert!(request.memo.is_some());
    assert!(request.payments[0].label.is_some());
    assert!(request.payments[0].message.is_some());
}

#[test]
fn test_sighash_type() {
    let hash = SigHash([1u8; 32]);
    assert_eq!(hash.as_bytes().len(), 32);
    assert_eq!(hash.to_vec().len(), 32);
}

#[test]
fn test_get_sighash_api() {
    let pczt = propose_transaction(&sample_transparent_inputs(), simple_payment_request(), None)
        .expect("Failed to propose");
    let proved = prove_transaction(pczt, &mut ProvingContext::new()).expect("Failed to prove");
    let sighash = get_sighash(&proved, 0).expect("Failed to get sighash");
    assert_eq!(sighash.as_bytes().len(), 32);
    assert_ne!(*sighash.as_bytes(), [0u8; 32]);
}

#[test]
fn test_get_sighash_invalid_index() {
    let pczt = propose_transaction(&sample_transparent_inputs(), simple_payment_request(), None)
        .expect("Failed to propose");
    let proved = prove_transaction(pczt, &mut ProvingContext::new()).expect("Failed to prove");
    let result = get_sighash(&proved, 999);
    assert!(result.is_err(), "Should fail with invalid index");
}

#[test]
fn test_verify_before_signing_valid() {
    let request = simple_payment_request();
    let pczt = propose_transaction(&sample_transparent_inputs(), request.clone(), None)
        .expect("Failed to propose");
    let proved = prove_transaction(pczt, &mut ProvingContext::new()).expect("Failed to prove");
    let result = verify_before_signing(&proved, &request, &[]);
    assert!(result.is_ok(), "Should accept valid PCZT");
}

#[test]
fn test_verify_before_signing_insufficient_outputs() {
    let request = simple_payment_request();
    let pczt = propose_transaction(&sample_transparent_inputs(), request.clone(), None)
        .expect("Failed to propose");
    let proved = prove_transaction(pczt, &mut ProvingContext::new()).expect("Failed to prove");
    let different_request = multi_payment_request();
    let result = verify_before_signing(&proved, &different_request, &[]);
    // The second payment is not among the outputs.
    assert!(result.is_err());
}

#[test]
fn test_combine_single_pczt() {
    let pczt = propose_transaction(&sample_transparent_inputs(), simple_payment_request(), None)
        .expect("Failed to propose");
    let proved = prove_transaction(pczt, &mut ProvingContext::new()).expect("Failed to prove");
    let combined = combine(vec![proved.clone()]).expect("Failed to combine");
    let uncombined_bytes = serialize_pczt(&proved).unwrap();
    let combined_bytes = serialize_pczt(&combined).unwrap();
    assert_eq!(uncombined_bytes, combined_bytes, "Single PCZT combine should be identity");
}

#[test]
fn test_combine_empty() {
    let result = combine(vec![]);
    assert!(result.is_err(), "Should fail with no PCZTs");
    assert!(matches!(result, Err(CombineError::NoPczts)));
}

#[test]
fn test_combine_parallel_signing() {
    let pczt = propose_transaction(&sample_transparent_inputs(), simple_payment_request(), None)
        .expect("Failed to propose");
    let proved = prove_transaction(pczt, &mut ProvingContext::new()).expect("Failed to prove");
    let mut signer1 = Signer::new(proved.clone()).expect("Failed to create signer");
    signer1.sign_transparent(0, &secret_key()).expect("Failed to sign");
    let signed = signer1.finish();
    let combined = combine(vec![signed.clone()]).expect("Failed to combine");
    let tx_bytes = finalize_and_extract(combined).expect("Failed to finalize combined");
    assert!(!tx_bytes.is_empty());
}

#[test]
fn test_append_signature_external() {
    let pczt = propose_transaction(&sample_transparent_inputs(), simple_payment_request(), None)
        .expect("Failed to propose");
    let proved = prove_transaction(pczt, &mut ProvingContext::new()).expect("Failed to prove");
    let signature = sign(&proved, 0);
    match append_signature(proved.clone(), 0, signature) {
        Ok(signed) => {
            let tx_bytes = finalize_and_extract(signed).expect("Failed to finalize");
            assert!(!tx_bytes.is_empty());
        }
        Err(e) => panic!("append_signature failed: {:?}", e),
    }
}

#[test]
fn propose_rejects_empty_request() {
    let request = TransactionRequest::new(vec![]);
    let result = propose_transaction(&sample_transparent_inputs(), request, None);
    assert!(matches!(result, Err(ProposalError::InvalidRequest(_))));
}

#[test]
fn propose_rejects_bad_address() {
    let request = TransactionRequest::new(vec![Payment::new("not an address".to_string(), SMALL)]);
    let result = propose_transaction(&sample_transparent_inputs(), request, None);
    assert!(matches!(result, Err(ProposalError::InvalidAddress(_))));
}

#[test]
fn propose_rejects_truncated_inputs() {
    let mut inputs = sample_transparent_inputs();
    inputs.truncate(40);
    let result = propose_transaction(&inputs, simple_payment_request(), None);
    assert!(matches!(result, Err(ProposalError::InvalidRequest(_))));
}

#[test]
fn append_signature_out_of_range_keeps_checkpoint() {
    let pczt = propose_transaction(&sample_transparent_inputs(), simple_payment_request(), None)
        .expect("Failed to propose");
    let checkpoint = serialize_pczt(&pczt).unwrap();
    let result = append_signature(pczt, 5, [0u8; 64]);
    assert!(matches!(result, Err(SignatureError::InvalidInputIndex(5))));
    let restored = parse_pczt(&checkpoint).expect("checkpoint parses");
    assert_eq!(serialize_pczt(&restored).unwrap(), checkpoint);
}

#[test]
fn append_signature_rejects_wrong_signature() {
    let pczt = propose_transaction(&sample_transparent_inputs(), simple_payment_request(), None)
        .expect("Failed to propose");
    let other = sign(&pczt, 0);
    let mut tampered = other;
    tampered[63] ^= 1;
    let result = append_signature(pczt, 0, tampered);
    assert!(matches!(result, Err(SignatureError::VerificationFailed) | Err(SignatureError::InvalidFormat)));
}

#[test]
fn append_signature_rejects_malformed_signature() {
    let pczt = propose_transaction(&sample_transparent_inputs(), simple_payment_request(), None)
        .expect("Failed to propose");
    let result = append_signature(pczt, 0, [0xFFu8; 64]);
    assert!(matches!(result, Err(SignatureError::InvalidFormat)));
}

#[test]
fn finalize_without_signature_fails() {
    let pczt = propose_transaction(&sample_transparent_inputs(), simple_payment_request(), None)
        .expect("Failed to propose");
    assert!(finalize_and_extract(pczt).is_err());
}

#[test]
fn end_to_end_transparent_payment() {
    let inputs = sample_transparent_inputs();
    let request = simple_payment_request();
    let pczt = propose_transaction(&inputs, request.clone(), None).expect("Failed to propose");
    let outputs: Vec<(Vec<u8>, u64)> = pczt
        .transparent()
        .outputs()
        .iter()
        .map(|o| (o.script_pubkey().clone(), *o.value()))
        .collect();
    assert_eq!(outputs.len(), 2);
    assert!(outputs.iter().any(|o| o.1 == SMALL));
    let change = test_input().script_pubkey;
    assert!(outputs.iter().any(|o| o.0 == change && o.1 == 99_890_000));
    assert!(verify_before_signing(&pczt, &request, &[]).is_ok());
    let signature = sign(&pczt, 0);
    let signed = append_signature(pczt, 0, signature).expect("signature appends");
    let signed_bytes = serialize_pczt(&signed).unwrap();
    let combined = combine(vec![signed]).expect("single record combines");
    assert_eq!(serialize_pczt(&combined).unwrap(), signed_bytes);
    let tx = finalize_and_extract(combined).expect("finalizes");
    assert!(!tx.is_empty());
}

#[test]
fn verify_with_expected_change() {
    let request = simple_payment_request();
    let pczt = propose_transaction(&sample_transparent_inputs(), request.clone(), None)
        .expect("Failed to propose");
    let change = t2z::TxOutput { script_pubkey: test_input().script_pubkey, value: 99_890_000 };
    assert!(verify_before_signing(&pczt, &request, &[change.clone()]).is_ok());
    let wrong = t2z::TxOutput { script_pubkey: test_input().script_pubkey, value: 99_890_001 };
    assert!(matches!(
        verify_before_signing(&pczt, &request, &[wrong]),
        Err(t2z::error::VerificationFailure::ChangeMismatch)
    ));
}

#[test]
fn proving_passes_through_transparent_only() {
    let pczt = propose_transaction(&sample_transparent_inputs(), simple_payment_request(), None)
        .expect("Failed to propose");
    let before = serialize_pczt(&pczt).unwrap();
    let proved = prove_transaction(pczt, &mut ProvingContext::new()).expect("Failed to prove");
    assert_eq!(serialize_pczt(&proved).unwrap(), before);
}

#[test]
fn proposal_keeps_inputs() {
    let pczt = propose_transaction(&sample_transparent_inputs(), simple_payment_request(), None)
        .expect("Failed to propose");
    let inputs = pczt.transparent().inputs();
    assert_eq!(inputs.len(), 1);
    assert_eq!(*inputs[0].prevout_txid(), TXID);
}

fn orchard_address(seed: u8) -> String {
    let sk = SpendingKey::from_bytes([seed; 32]).unwrap();
    let fvk = FullViewingKey::from(&sk);
    let addr = fvk.address_at(0u32, Scope::External);
    let ua = Address::try_from_items(vec![Receiver::Orchard(addr.to_raw_address_bytes())])
        .expect("Failed to create unified address");
    ua.encode(&zcash_protocol::consensus::NetworkType::Test)
}

#[test]
fn shielded_proposal_has_actions() {
    let payment = Payment::new(orchard_address(42), SMALL).with_memo("Shielded payment test".to_string());
    let request = TransactionRequest::new(vec![payment]);
    let pczt = propose_transaction(&sample_transparent_inputs(), request.clone(), None)
        .expect("Failed to propose transparent->shielded transaction");
    assert!(pczt.orchard().actions().len() > 0, "PCZT should have Orchard actions for shielded output");
    // One change output; the shielded payment goes to an action.
    assert_eq!(pczt.transparent().outputs().len(), 1);
    assert_eq!(*pczt.transparent().outputs()[0].value(), ONE_ZEC - SMALL - 15_000);
    assert!(verify_before_signing(&pczt, &request, &[]).is_ok());
}
