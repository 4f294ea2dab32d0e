use vstd::prelude::*;
use crate::decimal::{append_decimal, decimal};

verus! {

/// The Ruby exception class that an error is raised as.
#[derive(Clone, Copy, Debug, PartialEq, Eq, Structural)]
pub enum ErrorKind {
    /// `ArgumentError`: the caller passed an argument that is refused.
    ArgumentError,
    /// `RuntimeError`: the crypto library reported a failure.
    RuntimeError,
}

/// An error that the bindings hand back to Ruby.
#[derive(Debug)]
pub enum CryptoError {
    /// A network code other than 1, 2 or 3.
    UnknownNetwork(i64),
    /// A failure of the crypto library, with its description.
    Failed(String),
}

/// The exception class of an error.
pub open spec fn kind_of(e: CryptoError) -> ErrorKind {
    match e {
        CryptoError::UnknownNetwork(_) => ErrorKind::ArgumentError,
        CryptoError::Failed(_) => ErrorKind::RuntimeError,
    }
}

/// The exception message of an error.
pub open spec fn message_of(e: CryptoError) -> Seq<char> {
    match e {
        CryptoError::UnknownNetwork(code) => "unknown network: "@ + decimal(code as int),
        CryptoError::Failed(description) => description@,
    }
}

/// Wraps the description of a failure of the crypto library as the
/// `RuntimeError` that the bindings raise.
pub fn to_ruby_err(description: String) -> (e: CryptoError)
    ensures
        e == CryptoError::Failed(description),
{
    CryptoError::Failed(description)
}

/// Hands on the value of a call of the crypto library, or its failure as
/// the `RuntimeError` that the bindings raise.
pub fn map_err_to_ruby<T>(r: Result<T, String>) -> (out: Result<T, CryptoError>)
    ensures
        r matches Ok(v) ==> out == Ok::<T, CryptoError>(v),
        r matches Err(description) ==> out == Err::<T, CryptoError>(
            CryptoError::Failed(description),
        ),
{
    match r {
        Ok(v) => Ok(v),
        Err(description) => Err(to_ruby_err(description)),
    }
}

impl CryptoError {
    /// The exception class this error is raised as.
    pub fn kind(&self) -> (k: ErrorKind)
        ensures
            k == kind_of(*self),
            self is UnknownNetwork ==> k == ErrorKind::ArgumentError,
            self is Failed ==> k == ErrorKind::RuntimeError,
    {
        match self {
            CryptoError::UnknownNetwork(_) => ErrorKind::ArgumentError,
            CryptoError::Failed(_) => ErrorKind::RuntimeError,
        }
    }

    /// The exception message, e.g. "unknown network: 7".
    pub fn message(&self) -> (m: String)
        ensures
            m@ == message_of(*self),
            self matches CryptoError::UnknownNetwork(code) ==> m@ == "unknown network: "@ + decimal(
                code as int,
            ),
            self matches CryptoError::Failed(description) ==> m@ == description@,
    {
        match self {
            CryptoError::UnknownNetwork(code) => {
                let mut m = String::from_str("unknown network: ");
                append_decimal(&mut m, *code);
                m
            },
            CryptoError::Failed(description) => description.clone(),
        }
    }
}

/// An error is raised as `ArgumentError` exactly when it refuses a network
/// code, whatever the code's sign or value; every failure of the crypto
/// library is raised as `RuntimeError`.
pub proof fn argument_errors_are_refused_codes(e: CryptoError)
    ensures
        kind_of(e) == ErrorKind::ArgumentError <==> e is UnknownNetwork,
        kind_of(e) == ErrorKind::RuntimeError <==> e is Failed,
{
}

/// Every refused network code is an argument error.
pub proof fn refused_codes_are_argument_errors(code: i64)
    ensures
        kind_of(CryptoError::UnknownNetwork(code)) == ErrorKind::ArgumentError,
{
}

} // verus!
