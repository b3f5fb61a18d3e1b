use vstd::prelude::*;
use crate::hresult::HRESULT;

verus! {

/// The error of a failed `std::io` operation, carried through unchanged.
#[verifier::external_type_specification]
#[verifier::external_body]
pub struct ExIoError(std::io::Error);

/// The error of a failed `libloading` call, carried through unchanged.
#[verifier::external_type_specification]
#[verifier::external_body]
pub struct ExLibError(libloading::Error);

/// A text bound for the native side held a zero byte.
#[derive(Debug, PartialEq, Eq)]
pub struct NulError {
    /// Index of the first zero byte.
    pub position: usize,
    /// The text's bytes, as given.
    pub bytes: Vec<u8>,
}

impl NulError {
    pub fn nul_position(&self) -> (r: usize)
        ensures
            r == self.position,
    {
        self.position
    }

    pub fn into_vec(self) -> (r: Vec<u8>)
        ensures
            r@ == self.bytes@,
    {
        self.bytes
    }
}

#[derive(Debug)]
pub enum IronCoreError {
    IoError(std::io::Error),
    NulError(NulError),
    HresultError(HRESULT),
    LibError(libloading::Error),
    InvalidExePath,
}

pub type IronCoreResult<T> = Result<T, IronCoreError>;

impl From<std::io::Error> for IronCoreError {
    fn from(e: std::io::Error) -> (r: IronCoreError)
        ensures
            r == IronCoreError::IoError(e),
    {
        IronCoreError::IoError(e)
    }
}

impl vstd::std_specs::convert::FromSpecImpl<std::io::Error> for IronCoreError {
    open spec fn obeys_from_spec() -> bool {
        true
    }

    open spec fn from_spec(v: std::io::Error) -> IronCoreError {
        IronCoreError::IoError(v)
    }
}

impl From<NulError> for IronCoreError {
    fn from(e: NulError) -> (r: IronCoreError)
        ensures
            r == IronCoreError::NulError(e),
    {
        IronCoreError::NulError(e)
    }
}

impl vstd::std_specs::convert::FromSpecImpl<NulError> for IronCoreError {
    open spec fn obeys_from_spec() -> bool {
        true
    }

    open spec fn from_spec(v: NulError) -> IronCoreError {
        IronCoreError::NulError(v)
    }
}

impl From<libloading::Error> for IronCoreError {
    fn from(e: libloading::Error) -> (r: IronCoreError)
        ensures
            r == IronCoreError::LibError(e),
    {
        IronCoreError::LibError(e)
    }
}

impl vstd::std_specs::convert::FromSpecImpl<libloading::Error> for IronCoreError {
    open spec fn obeys_from_spec() -> bool {
        true
    }

    open spec fn from_spec(v: libloading::Error) -> IronCoreError {
        IronCoreError::LibError(v)
    }
}

} // verus!
