//! The in-progress transaction record and the stages that act on it after it
//! is proposed: proofs, pre-sign verification, signature hashes,
//! signatures, combination, finalisation, and its own byte encoding.
//!
//! Every consuming stage takes the record by value: once handed over, it is
//! gone, whether the stage succeeds or fails.
use vstd::prelude::*;
use orchard::circuit::OrchardCircuitVersion as V;
use pczt::Pczt;
use pczt::roles::combiner::Combiner;
use pczt::roles::prover::Prover;
use pczt::roles::signer::Signer;
use pczt::roles::spend_finalizer::SpendFinalizer;
use pczt::roles::tx_extractor::TransactionExtractor;
use crate::error::{
    CombineError, FinalizationError, ParseError, ProverError, SighashError, SignatureError,
    VerificationFailure,
};
use crate::presign::{check_outputs, output_views, rejection, reports, TxOutput};
use crate::types::{SigHash, TransactionRequest};

verus! {

#[verifier::external_type_specification]
#[verifier::external_body]
pub struct ExPczt(pczt::Pczt);

#[verifier::external_type_specification]
#[verifier::external_body]
pub struct ExProvingKey(orchard::circuit::ProvingKey);

/// The transparent inputs of a record, as (previous txid, output index,
/// value).
pub uninterp spec fn transparent_inputs_of(p: Pczt) -> Seq<(Seq<u8>, u32, u64)>;

/// The transparent outputs of a record, as (script, value).
pub uninterp spec fn transparent_outputs_of(p: Pczt) -> Seq<(Seq<u8>, u64)>;

/// The Orchard actions of a record, by their value commitments.
pub uninterp spec fn orchard_actions_of(p: Pczt) -> Seq<Option<Seq<u8>>>;

/// For each transparent input of a record, the public keys that have put a
/// signature on it.
pub uninterp spec fn input_signers_of(p: Pczt) -> Seq<Set<Seq<u8>>>;

/// For each transparent input of a record, its HASH160 preimages, by hash.
pub uninterp spec fn input_preimages_of(p: Pczt) -> Seq<Map<Seq<u8>, Seq<u8>>>;

/// The consensus branch id and expiry height of a record.
pub uninterp spec fn record_chain_of(p: Pczt) -> (u32, u32);

/// Relies on `Pczt::transparent` and `Bundle::inputs`: the inputs in order.
#[verifier::external_body]
fn input_count(p: &Pczt) -> (r: usize)
    ensures
        r == transparent_inputs_of(*p).len(),
{
    p.transparent().inputs().len()
}

/// Relies on `Pczt::transparent` and `Bundle::outputs`: the outputs in order,
/// with their scripts and values.
#[verifier::external_body]
fn output_list(p: &Pczt) -> (r: Vec<TxOutput>)
    ensures
        output_views(r@) == transparent_outputs_of(*p),
{
    p.transparent().outputs().iter().map(|o| TxOutput {
        script_pubkey: o.script_pubkey().clone(),
        value: *o.value(),
    }).collect()
}

/// Relies on `Pczt::orchard` and `Bundle::actions`: the actions in order.
#[verifier::external_body]
fn action_count(p: &Pczt) -> (r: usize)
    ensures
        r == orchard_actions_of(*p).len(),
{
    p.orchard().actions().len()
}

/// The Orchard circuits for which a proving key can be built.
#[derive(Debug, Clone, Copy, PartialEq, Eq, Structural)]
pub enum CircuitVersion {
    InsecurePreNu6_2,
    FixedPostNu6_2,
    PostNu6_3,
}

/// The Orchard circuit that the consensus branch of a record proves with.
pub uninterp spec fn circuit_version_of(p: Pczt) -> Option<CircuitVersion>;

/// Relies on `BranchId::try_from`, on `bundle_version_for_branch` for the
/// Orchard pool, and on `BundleVersion::circuit_version`: the circuit depends
/// on the record's consensus branch id alone.
#[verifier::external_body]
fn record_circuit_version(p: &Pczt) -> (r: Option<CircuitVersion>)
    ensures
        r == circuit_version_of(*p),
{
    let branch = zcash_protocol::consensus::BranchId::try_from(*p.global().consensus_branch_id()).ok()?;
    let bundle = zcash_primitives::transaction::components::orchard::bundle_version_for_branch(
        branch, orchard::ValuePool::Orchard)?;
    Some(match bundle.circuit_version() {
        V::InsecurePreNu6_2 => CircuitVersion::InsecurePreNu6_2,
        V::FixedPostNu6_2 => CircuitVersion::FixedPostNu6_2,
        V::PostNu6_3 => CircuitVersion::PostNu6_3,
    })
}

/// Whether a record has Orchard actions and no Orchard proof yet.
pub uninterp spec fn orchard_proof_required(p: Pczt) -> bool;

/// Relies on `Prover::requires_orchard_proof`, on a copy of the record: there
/// are actions and no proof.
#[verifier::external_body]
fn requires_orchard_proof(p: &Pczt) -> (r: bool)
    ensures
        r == orchard_proof_required(*p),
        orchard_actions_of(*p).len() == 0 ==> !r,
{
    Prover::new(p.clone()).requires_orchard_proof()
}

/// Proving keys for Orchard proofs, each built on first use and kept.
pub struct ProvingContext {
    key: Option<(CircuitVersion, orchard::circuit::ProvingKey)>,
}

/// Relies on `orchard::circuit::ProvingKey::build`, which takes a while, for
/// the given circuit.
#[verifier::external_body]
fn build_proving_key(version: CircuitVersion) -> orchard::circuit::ProvingKey {
    orchard::circuit::ProvingKey::build(match version {
        CircuitVersion::InsecurePreNu6_2 => V::InsecurePreNu6_2,
        CircuitVersion::FixedPostNu6_2 => V::FixedPostNu6_2,
        CircuitVersion::PostNu6_3 => V::PostNu6_3,
    })
}

impl ProvingContext {
    /// A context without keys.
    pub fn new() -> (r: Self)
        ensures
            forall|v: CircuitVersion| !r.is_ready_for(v),
    {
        ProvingContext { key: None }
    }

    pub closed spec fn is_ready_for(&self, version: CircuitVersion) -> bool {
        self.key matches Some((v, _)) && v == version
    }

    /// Builds the key for a circuit, unless it is built already.
    pub fn prepare(&mut self, version: CircuitVersion)
        ensures
            final(self).is_ready_for(version),
            old(self).is_ready_for(version) ==> *final(self) == *old(self),
    {
        let ready = match &self.key {
            Some((v, _)) => *v == version,
            None => false,
        };
        if !ready {
            self.key = Some((version, build_proving_key(version)));
        }
    }
}

/// Relies on `Prover::create_orchard_proof`, which moves the transparent part
/// and the global fields of the record over unchanged and writes back the
/// Orchard actions it read, with the proof set.
#[verifier::external_body]
fn create_orchard_proof(pczt: Pczt, key: &orchard::circuit::ProvingKey) -> (r: Result<Pczt, String>)
    ensures
        r matches Ok(p) ==> {
            &&& !orchard_proof_required(p)
            &&& transparent_inputs_of(p) == transparent_inputs_of(pczt)
            &&& transparent_outputs_of(p) == transparent_outputs_of(pczt)
            &&& input_signers_of(p) == input_signers_of(pczt)
            &&& input_preimages_of(p) == input_preimages_of(pczt)
            &&& record_chain_of(p) == record_chain_of(pczt)
            &&& orchard_actions_of(p).len() == orchard_actions_of(pczt).len()
        },
{
    Prover::new(pczt).create_orchard_proof(key).map(|p| p.finish()).map_err(|e| format!("{:?}", e))
}

/// Adds the Orchard proof. A record that needs none (no actions, or a proof
/// already) comes back as it is; otherwise the key for the record's circuit
/// is built if it is not yet. On success no proof is missing and the
/// transparent part, signatures included, and the actions are kept.
pub fn prove_transaction(pczt: Pczt, context: &mut ProvingContext) -> (r: Result<Pczt, ProverError>)
    ensures
        !orchard_proof_required(pczt) ==> r == Ok::<Pczt, ProverError>(pczt),
        !orchard_proof_required(pczt) ==> *final(context) == *old(context),
        orchard_actions_of(pczt).len() == 0 ==> r == Ok::<Pczt, ProverError>(pczt),
        orchard_proof_required(pczt) && (circuit_version_of(pczt) matches Some(v) && v != CircuitVersion::InsecurePreNu6_2)
            ==> final(context).is_ready_for(circuit_version_of(pczt)->Some_0),
        orchard_proof_required(pczt) && !(circuit_version_of(pczt) matches Some(v) && v != CircuitVersion::InsecurePreNu6_2)
            ==> r matches Err(ProverError::OrchardProof(_)),
        r matches Ok(p) ==> {
            &&& !orchard_proof_required(p)
            &&& transparent_inputs_of(p) == transparent_inputs_of(pczt)
            &&& transparent_outputs_of(p) == transparent_outputs_of(pczt)
            &&& input_signers_of(p) == input_signers_of(pczt)
            &&& input_preimages_of(p) == input_preimages_of(pczt)
            &&& record_chain_of(p) == record_chain_of(pczt)
            &&& orchard_actions_of(p).len() == orchard_actions_of(pczt).len()
        },
        r matches Err(e) ==> e is OrchardProof,
{
    if !requires_orchard_proof(&pczt) {
        return Ok(pczt);
    }
    let version = match record_circuit_version(&pczt) {
        Some(CircuitVersion::FixedPostNu6_2) => CircuitVersion::FixedPostNu6_2,
        Some(CircuitVersion::PostNu6_3) => CircuitVersion::PostNu6_3,
        _ => {
            return Err(ProverError::OrchardProof("no proving circuit for this consensus branch".to_string()));
        },
    };
    context.prepare(version);
    match &context.key {
        Some((_, key)) => match create_orchard_proof(pczt, key) {
            Ok(p) => Ok(p),
            Err(msg) => Err(ProverError::OrchardProof(msg)),
        },
        None => Err(ProverError::OrchardProof("proving key unavailable".to_string())),
    }
}

/// Checks a record against the request it was proposed for and the change
/// the caller expects; see [`check_outputs`].
pub fn verify_before_signing(
    pczt: &Pczt,
    transaction_request: &TransactionRequest,
    expected_change: &[TxOutput],
) -> (r: Result<(), VerificationFailure>)
    ensures
        match rejection(
            transparent_outputs_of(*pczt),
            orchard_actions_of(*pczt).len(),
            transaction_request.payments@,
            output_views(expected_change@),
        ) {
            None => r is Ok,
            Some(rej) => r is Err && reports(r->Err_0, rej, transaction_request.payments@),
        },
{
    let outputs = output_list(pczt);
    let n_actions = action_count(pczt);
    check_outputs(outputs.as_slice(), n_actions, transaction_request, expected_change)
}

/// The digest that a signature for the transparent input at `index` of a
/// record signs, if the signer can compute it.
pub uninterp spec fn sighash_of(p: Pczt, index: usize) -> Option<Seq<u8>>;

/// Relies on `Signer::new` and `Signer::transparent_sighash`: the digest
/// depends on the record and the index alone.
#[verifier::external_body]
fn transparent_sighash(pczt: &Pczt, index: usize) -> (r: Result<[u8; 32], String>)
    ensures
        match r {
            Ok(h) => sighash_of(*pczt, index) == Some(h@),
            Err(_) => sighash_of(*pczt, index) == None::<Seq<u8>>,
        },
{
    let signer = Signer::new(pczt.clone()).map_err(|e| format!("{:?}", e))?;
    signer.transparent_sighash(index).map_err(|e| format!("{:?}", e))
}

/// The digest that a signature for the transparent input at `input_index`
/// must sign.
pub fn get_sighash(pczt: &Pczt, input_index: usize) -> (r: Result<SigHash, SighashError>)
    ensures
        input_index >= transparent_inputs_of(*pczt).len() ==> r == Err::<SigHash, SighashError>(
            SighashError::InvalidInputIndex(input_index),
        ),
        input_index < transparent_inputs_of(*pczt).len() ==> match sighash_of(*pczt, input_index) {
            Some(h) => r matches Ok(s) && s.0@ == h,
            None => r matches Err(SighashError::CalculationFailed(_)),
        },
{
    if input_index >= input_count(pczt) {
        return Err(SighashError::InvalidInputIndex(input_index));
    }
    match transparent_sighash(pczt, input_index) {
        Ok(hash) => Ok(SigHash(hash)),
        Err(msg) => Err(SighashError::CalculationFailed(msg)),
    }
}

/// Whether 64 bytes are a valid compact ECDSA signature.
pub uninterp spec fn valid_compact_signature(bytes: Seq<u8>) -> bool;

/// Relies on `secp256k1::ecdsa::Signature::from_compact`: it accepts a 64-byte
/// string depending on its contents alone.
#[verifier::external_body]
fn is_compact_signature(signature: &[u8; 64]) -> (r: bool)
    ensures
        r == valid_compact_signature(signature@),
{
    secp256k1::ecdsa::Signature::from_compact(signature).is_ok()
}

/// Why the signer role did not take a signature.
enum AppendFault {
    /// The record could not be read by the signer.
    Unreadable,
    /// The signature does not verify for that input.
    Rejected,
}

/// What a successful signature append keeps and changes: the signature of
/// one more key on the input at `index`, everything else as it was.
pub open spec fn signed_from(p: Pczt, pczt: Pczt, index: usize) -> bool {
    &&& transparent_inputs_of(p) == transparent_inputs_of(pczt)
    &&& transparent_outputs_of(p) == transparent_outputs_of(pczt)
    &&& orchard_actions_of(p).len() == orchard_actions_of(pczt).len()
    &&& input_preimages_of(p) == input_preimages_of(pczt)
    &&& record_chain_of(p) == record_chain_of(pczt)
    &&& input_signers_of(p).len() == input_signers_of(pczt).len()
    &&& index < input_signers_of(pczt).len()
    &&& exists|key: Seq<u8>| input_signers_of(p)[index as int] == input_signers_of(pczt)[index as int].insert(key)
    &&& forall|j: int| 0 <= j < input_signers_of(pczt).len() && j != index ==> input_signers_of(p)[j]
        == input_signers_of(pczt)[j]
}

/// Whether the signer role can read a record.
pub uninterp spec fn signer_reads(p: Pczt) -> bool;

/// Whether the signer role accepts a compact signature for the transparent
/// input at `index` of a record: it verifies against that input's sighash
/// and key.
pub uninterp spec fn signature_accepted(p: Pczt, index: usize, signature: Seq<u8>) -> bool;

/// Relies on `Signer::new`, `Signer::append_transparent_signature`, which
/// checks the signature against the input's sighash and key and adds it, and
/// `Signer::finish`, which writes back the transparent inputs and outputs, the
/// global fields and the Orchard actions it read; the accepted signature is
/// stored on that input under the key it verifies with. For an index in
/// range, the only error of `append_transparent_signature` is the rejection
/// of the signature.
#[verifier::external_body]
fn signer_append(pczt: Pczt, index: usize, signature: &[u8; 64]) -> (r: Result<Pczt, AppendFault>)
    requires
        valid_compact_signature(signature@),
        index < transparent_inputs_of(pczt).len(),
    ensures
        !signer_reads(pczt) ==> r matches Err(AppendFault::Unreadable),
        signer_reads(pczt) ==> (r is Ok <==> signature_accepted(pczt, index, signature@)),
        signer_reads(pczt) && !signature_accepted(pczt, index, signature@) ==> r matches Err(
            AppendFault::Rejected,
        ),
        r matches Ok(p) ==> signed_from(p, pczt, index),
{
    let mut signer = Signer::new(pczt).map_err(|_| AppendFault::Unreadable)?;
    let sig = secp256k1::ecdsa::Signature::from_compact(signature).map_err(|_| AppendFault::Unreadable)?;
    match signer.append_transparent_signature(index, sig) {
        Ok(()) => Ok(signer.finish()),
        Err(_) => Err(AppendFault::Rejected),
    }
}

/// Appends a 64-byte compact signature to the transparent input at
/// `input_index`, after it is checked against that input's sighash and key.
/// The record is consumed whatever the outcome.
pub fn append_signature(pczt: Pczt, input_index: usize, signature: [u8; 64]) -> (r: Result<
    Pczt,
    SignatureError,
>)
    ensures
        input_index >= transparent_inputs_of(pczt).len() ==> r == Err::<Pczt, SignatureError>(
            SignatureError::InvalidInputIndex(input_index),
        ),
        input_index < transparent_inputs_of(pczt).len() && !valid_compact_signature(signature@)
            ==> r == Err::<Pczt, SignatureError>(SignatureError::InvalidFormat),
        input_index < transparent_inputs_of(pczt).len() && valid_compact_signature(signature@)
            ==> {
            &&& !signer_reads(pczt) ==> r == Err::<Pczt, SignatureError>(SignatureError::InvalidFormat)
            &&& signer_reads(pczt) ==> (r is Ok <==> signature_accepted(pczt, input_index, signature@))
            &&& signer_reads(pczt) && !signature_accepted(pczt, input_index, signature@) ==> r
                == Err::<Pczt, SignatureError>(SignatureError::VerificationFailed)
        },
        r matches Ok(p) ==> signed_from(p, pczt, input_index),
{
    if input_index >= input_count(&pczt) {
        return Err(SignatureError::InvalidInputIndex(input_index));
    }
    if !is_compact_signature(&signature) {
        return Err(SignatureError::InvalidFormat);
    }
    match signer_append(pczt, input_index, &signature) {
        Ok(p) => Ok(p),
        Err(AppendFault::Unreadable) => Err(SignatureError::InvalidFormat),
        Err(AppendFault::Rejected) => Err(SignatureError::VerificationFailed),
    }
}

/// The merge of records, in order, if they can be merged.
pub uninterp spec fn combined_of(pczts: Seq<Pczt>) -> Option<Pczt>;

/// Relies on `Combiner::new` and `Combiner::combine`, which folds the records
/// in order with a merge that depends on them alone, and fails with
/// `DataMismatch` when two cannot be merged; `NoPczts` comes only for no
/// records.
#[verifier::external_body]
fn combiner_combine(pczts: Vec<Pczt>) -> (r: Result<Pczt, CombineError>)
    requires
        pczts@.len() >= 2,
    ensures
        match combined_of(pczts@) {
            Some(p) => r == Ok::<Pczt, CombineError>(p),
            None => r == Err::<Pczt, CombineError>(CombineError::DataMismatch),
        },
{
    Combiner::new(pczts).combine().map_err(|e| match e {
        pczt::roles::combiner::Error::NoPczts => CombineError::NoPczts,
        pczt::roles::combiner::Error::DataMismatch => CombineError::DataMismatch,
    })
}

/// Merges records of one transaction: the union of their signatures and
/// proofs. No records is an error; a single record comes back as it is.
pub fn combine(pczts: Vec<Pczt>) -> (r: Result<Pczt, CombineError>)
    ensures
        pczts@.len() == 0 ==> r == Err::<Pczt, CombineError>(CombineError::NoPczts),
        pczts@.len() == 1 ==> r == Ok::<Pczt, CombineError>(pczts@[0]),
        pczts@.len() >= 2 ==> match combined_of(pczts@) {
            Some(p) => r == Ok::<Pczt, CombineError>(p),
            None => r == Err::<Pczt, CombineError>(CombineError::DataMismatch),
        },
{
    let mut pczts = pczts;
    if pczts.len() == 0 {
        return Err(CombineError::NoPczts);
    }
    if pczts.len() == 1 {
        match pczts.pop() {
            Some(p) => {
                return Ok(p);
            },
            None => {
                return Err(CombineError::NoPczts);
            },
        }
    }
    combiner_combine(pczts)
}

/// The record with each transparent input's signature turned into its final
/// spend authorisation, if every input can be finalised.
pub uninterp spec fn spends_finalized_of(p: Pczt) -> Option<Pczt>;

/// Whether a transaction can be extracted from a finalised record and
/// written. The bytes themselves are not named: extraction signs shielded
/// bundles with fresh randomness.
pub uninterp spec fn extract_succeeds(p: Pczt) -> bool;

/// Relies on `SpendFinalizer::finalize_spends`: its result depends on the
/// record alone.
#[verifier::external_body]
fn finalize_spends(pczt: Pczt) -> (r: Result<Pczt, String>)
    ensures
        match r {
            Ok(p) => spends_finalized_of(pczt) == Some(p),
            Err(_) => spends_finalized_of(pczt) == None::<Pczt>,
        },
{
    SpendFinalizer::new(pczt).finalize_spends().map_err(|e| format!("{:?}", e))
}

/// Why a transaction could not be extracted.
enum ExtractFault {
    Extraction(String),
    Serialization(String),
}

/// Relies on `TransactionExtractor::extract` and `Transaction::write`:
/// whether they succeed depends on the record alone, and a written
/// transaction is never empty.
#[verifier::external_body]
fn extract_transaction(pczt: Pczt) -> (r: Result<Vec<u8>, ExtractFault>)
    ensures
        r is Ok <==> extract_succeeds(pczt),
        r matches Ok(b) ==> b@.len() > 0,
{
    let tx = TransactionExtractor::new(pczt).extract().map_err(|e| ExtractFault::Extraction(format!("{:?}", e)))?;
    let mut bytes = Vec::new();
    tx.write(&mut bytes).map_err(|e| ExtractFault::Serialization(format!("{:?}", e)))?;
    Ok(bytes)
}

/// Finalises the spends of a signed record and extracts the transaction
/// bytes to broadcast. The record is consumed whatever the outcome.
pub fn finalize_and_extract(pczt: Pczt) -> (r: Result<Vec<u8>, FinalizationError>)
    ensures
        match spends_finalized_of(pczt) {
            None => r matches Err(FinalizationError::SpendFinalization(_)),
            Some(f) => {
                &&& (r is Ok <==> extract_succeeds(f))
                &&& r matches Ok(bytes) ==> bytes@.len() > 0
                &&& r matches Err(e) ==> (e is TransactionExtraction || e is Serialization)
            },
        },
{
    let finalized = match finalize_spends(pczt) {
        Ok(p) => p,
        Err(msg) => {
            return Err(FinalizationError::SpendFinalization(msg));
        },
    };
    match extract_transaction(finalized) {
        Ok(bytes) => Ok(bytes),
        Err(ExtractFault::Extraction(msg)) => Err(FinalizationError::TransactionExtraction(msg)),
        Err(ExtractFault::Serialization(msg)) => Err(FinalizationError::Serialization(msg)),
    }
}

/// The record that a byte string encodes, if it is one.
pub uninterp spec fn pczt_decoded(bytes: Seq<u8>) -> Option<Pczt>;

/// The byte encoding of a record, if it can be encoded.
pub uninterp spec fn pczt_encoded(p: Pczt) -> Option<Seq<u8>>;

/// Relies on `Pczt::parse`: the result depends on the bytes alone.
#[verifier::external_body]
fn pczt_from_bytes(bytes: &[u8]) -> (r: Result<Pczt, String>)
    ensures
        match r {
            Ok(p) => pczt_decoded(bytes@) == Some(p),
            Err(_) => pczt_decoded(bytes@) == None::<Pczt>,
        },
{
    Pczt::parse(bytes).map_err(|e| format!("{:?}", e))
}

/// Relies on `Pczt::serialize`, on a copy of the record: the result depends
/// on the record alone.
#[verifier::external_body]
fn pczt_to_bytes(pczt: &Pczt) -> (r: Result<Vec<u8>, String>)
    ensures
        match r {
            Ok(b) => pczt_encoded(*pczt) == Some(b@),
            Err(_) => pczt_encoded(*pczt) == None::<Seq<u8>>,
        },
{
    pczt.clone().serialize().map_err(|e| format!("{:?}", e))
}

/// Reads a record from its byte encoding.
pub fn parse_pczt(pczt_bytes: &[u8]) -> (r: Result<Pczt, ParseError>)
    ensures
        match pczt_decoded(pczt_bytes@) {
            Some(p) => r == Ok::<Pczt, ParseError>(p),
            None => r matches Err(ParseError::InvalidFormat(_)),
        },
{
    match pczt_from_bytes(pczt_bytes) {
        Ok(p) => Ok(p),
        Err(msg) => Err(ParseError::InvalidFormat(msg)),
    }
}

/// Writes a record in its byte encoding, a checkpoint from which
/// [`parse_pczt`] restores it.
pub fn serialize_pczt(pczt: &Pczt) -> (r: Result<Vec<u8>, ParseError>)
    ensures
        match pczt_encoded(*pczt) {
            Some(b) => r matches Ok(bytes) && bytes@ == b,
            None => r matches Err(ParseError::InvalidFormat(_)),
        },
{
    match pczt_to_bytes(pczt) {
        Ok(bytes) => Ok(bytes),
        Err(msg) => Err(ParseError::InvalidFormat(msg)),
    }
}

} // verus!
