//! The boundary contract toward a host: result codes by stage, opaque
//! handles, and the retrieval of the last error message into a caller's
//! buffer.
use vstd::prelude::*;
use crate::error::FfiError;

verus! {

/// Opaque handle to a transaction record held for a host.
pub struct PcztHandle {
    _private: [u8; 0],
}

/// Opaque handle to a transaction request held for a host.
pub struct TransactionRequestHandle {
    _private: [u8; 0],
}

/// Outcome of a boundary call.
#[derive(Debug, Clone, Copy, PartialEq, Eq)]
pub enum ResultCode {
    Success,
    ErrorNullPointer,
    ErrorInvalidUtf8,
    ErrorBufferTooSmall,
    ErrorProposal,
    ErrorProver,
    ErrorVerification,
    ErrorSighash,
    ErrorSignature,
    ErrorCombine,
    ErrorFinalization,
    ErrorParse,
    ErrorNotImplemented,
}

pub open spec fn code_of(r: ResultCode) -> u32 {
    match r {
        ResultCode::Success => 0,
        ResultCode::ErrorNullPointer => 1,
        ResultCode::ErrorInvalidUtf8 => 2,
        ResultCode::ErrorBufferTooSmall => 3,
        ResultCode::ErrorProposal => 10,
        ResultCode::ErrorProver => 11,
        ResultCode::ErrorVerification => 12,
        ResultCode::ErrorSighash => 13,
        ResultCode::ErrorSignature => 14,
        ResultCode::ErrorCombine => 15,
        ResultCode::ErrorFinalization => 16,
        ResultCode::ErrorParse => 17,
        ResultCode::ErrorNotImplemented => 99,
    }
}

impl ResultCode {
    /// The number by which a host sees this outcome.
    pub fn code(&self) -> (r: u32)
        ensures
            r == code_of(*self),
    {
        match self {
            ResultCode::Success => 0,
            ResultCode::ErrorNullPointer => 1,
            ResultCode::ErrorInvalidUtf8 => 2,
            ResultCode::ErrorBufferTooSmall => 3,
            ResultCode::ErrorProposal => 10,
            ResultCode::ErrorProver => 11,
            ResultCode::ErrorVerification => 12,
            ResultCode::ErrorSighash => 13,
            ResultCode::ErrorSignature => 14,
            ResultCode::ErrorCombine => 15,
            ResultCode::ErrorFinalization => 16,
            ResultCode::ErrorParse => 17,
            ResultCode::ErrorNotImplemented => 99,
        }
    }
}

pub open spec fn stage_code(e: FfiError) -> ResultCode {
    match e {
        FfiError::NullPointer => ResultCode::ErrorNullPointer,
        FfiError::InvalidUtf8 => ResultCode::ErrorInvalidUtf8,
        FfiError::BufferTooSmall => ResultCode::ErrorBufferTooSmall,
        FfiError::Proposal(_) => ResultCode::ErrorProposal,
        FfiError::Prover(_) => ResultCode::ErrorProver,
        FfiError::Verification(_) => ResultCode::ErrorVerification,
        FfiError::Sighash(_) => ResultCode::ErrorSighash,
        FfiError::Signature(_) => ResultCode::ErrorSignature,
        FfiError::Combine(_) => ResultCode::ErrorCombine,
        FfiError::Finalization(_) => ResultCode::ErrorFinalization,
        FfiError::Parse(_) => ResultCode::ErrorParse,
        FfiError::NotImplemented(_) => ResultCode::ErrorNotImplemented,
    }
}

impl FfiError {
    /// The result code of the stage this error comes from.
    pub fn result_code(&self) -> (r: ResultCode)
        ensures
            r == stage_code(*self),
    {
        match self {
            FfiError::NullPointer => ResultCode::ErrorNullPointer,
            FfiError::InvalidUtf8 => ResultCode::ErrorInvalidUtf8,
            FfiError::BufferTooSmall => ResultCode::ErrorBufferTooSmall,
            FfiError::Proposal(_) => ResultCode::ErrorProposal,
            FfiError::Prover(_) => ResultCode::ErrorProver,
            FfiError::Verification(_) => ResultCode::ErrorVerification,
            FfiError::Sighash(_) => ResultCode::ErrorSighash,
            FfiError::Signature(_) => ResultCode::ErrorSignature,
            FfiError::Combine(_) => ResultCode::ErrorCombine,
            FfiError::Finalization(_) => ResultCode::ErrorFinalization,
            FfiError::Parse(_) => ResultCode::ErrorParse,
            FfiError::NotImplemented(_) => ResultCode::ErrorNotImplemented,
        }
    }
}

/// What the last-error retrieval writes into a buffer of `buffer_len` bytes:
/// the message and a terminating zero; an empty string when no error is set.
/// A message holding a zero byte cannot be written; one that does not fit,
/// with its terminator, is refused as too large for the buffer.
pub open spec fn last_error_result(message: Option<Seq<u8>>, buffer_len: nat) -> Result<Seq<u8>, ResultCode> {
    match message {
        None => if buffer_len >= 1 {
            Ok(seq![0u8])
        } else {
            Err(ResultCode::ErrorBufferTooSmall)
        },
        Some(m) => if m.contains(0u8) {
            Err(ResultCode::ErrorInvalidUtf8)
        } else if m.len() + 1 > buffer_len {
            Err(ResultCode::ErrorBufferTooSmall)
        } else {
            Ok(m.push(0u8))
        },
    }
}

/// The bytes to copy into the caller's buffer for the last error message.
pub fn last_error_bytes(message: Option<&[u8]>, buffer_len: usize) -> (r: Result<Vec<u8>, ResultCode>)
    ensures
        match (r, last_error_result(
            match message {
                Some(m) => Some(m@),
                None => None,
            },
            buffer_len as nat,
        )) {
            (Ok(v), Ok(s)) => v@ == s,
            (Err(c), Err(d)) => c == d,
            _ => false,
        },
{
    match message {
        None => {
            if buffer_len >= 1 {
                let mut v: Vec<u8> = Vec::new();
                v.push(0);
                assert(v@ =~= seq![0u8]);
                Ok(v)
            } else {
                Err(ResultCode::ErrorBufferTooSmall)
            }
        },
        Some(m) => {
            let mut out: Vec<u8> = Vec::new();
            let mut i: usize = 0;
            while i < m.len()
                invariant
                    i <= m@.len(),
                    message == Some(m),
                    out@ == m@.subrange(0, i as int),
                    forall|k: int| 0 <= k < i ==> m@[k] != 0u8,
                decreases m@.len() - i,
            {
                if m[i] == 0 {
                    assert(m@[i as int] == 0u8);
                    assert(m@.contains(0u8));
                    return Err(ResultCode::ErrorInvalidUtf8);
                }
                out.push(m[i]);
                i = i + 1;
                assert(out@ =~= m@.subrange(0, i as int));
            }
            assert(out@ =~= m@);
            assert(!m@.contains(0u8));
            if m.len() >= buffer_len {
                return Err(ResultCode::ErrorBufferTooSmall);
            }
            out.push(0);
            Ok(out)
        },
    }
}

} // verus!
