//! Errors of each stage. Every stage has its own error type; the boundary
//! layer wraps them into [`FfiError`], tagged by stage.
use vstd::prelude::*;

verus! {

/// Errors that can occur while proposing a transaction.
#[derive(Debug, Clone, PartialEq, Eq)]
pub enum ProposalError {
    NoInputs,
    InvalidRequest(String),
    InvalidAddress(String),
    InsufficientFunds,
    FeeCalculation(String),
    NotImplemented,
    PcztCreation(String),
}

/// Errors that can occur while adding proofs.
#[derive(Debug, Clone, PartialEq, Eq)]
pub enum ProverError {
    NoOrchardOutputs,
    ProvingKeyUnavailable,
    ProofGenerationFailed(String),
    OrchardProof(String),
    NotImplemented,
}

/// Reasons for which a transaction fails pre-sign verification.
#[derive(Debug, Clone, PartialEq, Eq)]
pub enum VerificationFailure {
    RequestMismatch,
    ChangeMismatch,
    InvalidFee,
    OutputMismatch(String),
    NotImplemented,
}

/// Errors that can occur while computing a signature hash.
#[derive(Debug, Clone, PartialEq, Eq)]
pub enum SighashError {
    InvalidInputIndex(usize),
    MissingInputData,
    CalculationFailed(String),
    NotImplemented,
}

/// Errors that can occur while appending a signature.
#[derive(Debug, Clone, PartialEq, Eq)]
pub enum SignatureError {
    InvalidInputIndex(usize),
    VerificationFailed,
    InvalidFormat,
    MissingPublicKey,
    NotImplemented,
}

/// Errors that can occur while combining transactions.
#[derive(Debug, Clone, PartialEq, Eq)]
pub enum CombineError {
    NoPczts,
    DataMismatch,
    IncompatiblePczts(String),
    CombinationFailed(String),
    NotImplemented,
}

/// Errors that can occur while finalising and extracting a transaction.
#[derive(Debug, Clone, PartialEq, Eq)]
pub enum FinalizationError {
    MissingSignatures,
    MissingProofs,
    SpendFinalization(String),
    TransactionExtraction(String),
    Serialization(String),
    VerificationFailed(String),
    ExtractionFailed(String),
    NotImplemented,
}

/// Errors that can occur while parsing a serialized transaction record.
#[derive(Debug, Clone, PartialEq, Eq)]
pub enum ParseError {
    InvalidFormat(String),
    UnsupportedVersion,
    CorruptedData,
}

/// The outward error taxonomy of the boundary layer, tagged by stage.
#[derive(Debug, Clone, PartialEq, Eq)]
pub enum FfiError {
    NullPointer,
    InvalidUtf8,
    BufferTooSmall,
    Proposal(ProposalError),
    Prover(ProverError),
    Verification(VerificationFailure),
    Sighash(SighashError),
    Signature(SignatureError),
    Combine(CombineError),
    Finalization(FinalizationError),
    Parse(ParseError),
    NotImplemented(String),
}

} // verus!
