//! The errors of aggregation and verification.

use vstd::prelude::*;

verus! {

/// The kinds of error, without their messages.
#[derive(Clone, Copy, Debug, PartialEq, Eq, Structural)]
pub enum ErrorKind {
    /// The proof is badly shaped: too few proofs, not a power of two,
    /// vectors of the wrong length.
    InvalidProof,
    /// The reference string does not fit the proofs.
    InvalidSRS,
    /// The bytes do not hold a proof.
    MalformedProof,
    /// The verifying key does not fit the public inputs.
    MalformedVerifyingKey,
    /// The two operands of an inner product differ in length.
    InvalidIPVectorLength,
    /// A commitment key and what it is applied to differ in length.
    InvalidKeyLength,
    /// A Miller loop's result has no final exponentiation.
    InvalidPairing,
    /// The batched pairing equation does not hold.
    PairingCheckFailed,
}

/// An error of aggregation or verification.
#[derive(Debug)]
pub enum Error {
    InvalidProof(String),
    InvalidSRS(String),
    MalformedProof,
    MalformedVerifyingKey,
    InvalidIPVectorLength,
    InvalidKeyLength,
    InvalidPairing,
    PairingCheckFailed,
}

impl Error {
    /// The kind of the error.
    pub open spec fn spec_kind(&self) -> ErrorKind {
        match self {
            Error::InvalidProof(_) => ErrorKind::InvalidProof,
            Error::InvalidSRS(_) => ErrorKind::InvalidSRS,
            Error::MalformedProof => ErrorKind::MalformedProof,
            Error::MalformedVerifyingKey => ErrorKind::MalformedVerifyingKey,
            Error::InvalidIPVectorLength => ErrorKind::InvalidIPVectorLength,
            Error::InvalidKeyLength => ErrorKind::InvalidKeyLength,
            Error::InvalidPairing => ErrorKind::InvalidPairing,
            Error::PairingCheckFailed => ErrorKind::PairingCheckFailed,
        }
    }

    #[verifier::when_used_as_spec(spec_kind)]
    pub fn kind(&self) -> (k: ErrorKind)
        ensures
            k == self.spec_kind(),
    {
        match self {
            Error::InvalidProof(_) => ErrorKind::InvalidProof,
            Error::InvalidSRS(_) => ErrorKind::InvalidSRS,
            Error::MalformedProof => ErrorKind::MalformedProof,
            Error::MalformedVerifyingKey => ErrorKind::MalformedVerifyingKey,
            Error::InvalidIPVectorLength => ErrorKind::InvalidIPVectorLength,
            Error::InvalidKeyLength => ErrorKind::InvalidKeyLength,
            Error::InvalidPairing => ErrorKind::InvalidPairing,
            Error::PairingCheckFailed => ErrorKind::PairingCheckFailed,
        }
    }
}

/// Whether `r` is the value that `expected` gives, or an error of the kind
/// that it gives.
pub open spec fn agrees<T>(r: Result<T, Error>, expected: Result<T, ErrorKind>) -> bool {
    match expected {
        Ok(v) => r == Ok::<T, Error>(v),
        Err(k) => r is Err && r->Err_0.kind() == k,
    }
}

} // verus!
