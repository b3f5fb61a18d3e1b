use vstd::prelude::*;
use crate::error::{IronCoreError, IronCoreResult};

verus! {

/// Status code of a successful native call.
pub const CODE_OK: u32 = 0;

/// The file named in a native call does not exist.
pub const CODE_FILE_NOT_FOUND: u32 = 0x8007_0002;

/// A type could not be loaded.
pub const CODE_TYPE_LOAD: u32 = 0x8013_1522;

/// An entry point was not found in the managed assembly.
pub const CODE_ENTRY_POINT_NOT_FOUND: u32 = 0x8013_1523;

/// A managed or native library could not be found.
pub const CODE_DLL_NOT_FOUND: u32 = 0x8013_1524;

/// A status code returned by the engine, with its known values named.
#[derive(Debug, Clone, Copy, PartialEq, Eq, Structural)]
pub enum HRESULT {
    Success,
    FileNotFound,
    CorETypeLoad,
    CorEEntryPointNotFound,
    CorEDLLNotFound,
    Unknown(u32),
}

/// The outcome that a raw status code stands for.
pub open spec fn hresult_of(code: u32) -> HRESULT {
    if code == CODE_OK {
        HRESULT::Success
    } else if code == CODE_FILE_NOT_FOUND {
        HRESULT::FileNotFound
    } else if code == CODE_TYPE_LOAD {
        HRESULT::CorETypeLoad
    } else if code == CODE_ENTRY_POINT_NOT_FOUND {
        HRESULT::CorEEntryPointNotFound
    } else if code == CODE_DLL_NOT_FOUND {
        HRESULT::CorEDLLNotFound
    } else {
        HRESULT::Unknown(code)
    }
}

/// A code read as a two's-complement 32-bit signed integer.
pub open spec fn signed_value(code: u32) -> int {
    if code < 0x8000_0000 {
        code as int
    } else {
        code as int - 0x1_0000_0000
    }
}

/// Whether an outcome counts as success: the named failures never do, and an
/// unnamed code does when it is non-negative as a signed value.
pub open spec fn is_success(h: HRESULT) -> bool {
    match h {
        HRESULT::Success => true,
        HRESULT::Unknown(code) => signed_value(code) >= 0,
        _ => false,
    }
}

impl HRESULT {
    pub fn succeeded(&self) -> (r: bool)
        ensures
            r == is_success(*self),
    {
        match *self {
            HRESULT::Success => true,
            HRESULT::FileNotFound => false,
            HRESULT::CorETypeLoad => false,
            HRESULT::CorEEntryPointNotFound => false,
            HRESULT::CorEDLLNotFound => false,
            HRESULT::Unknown(hr) => hr < 0x8000_0000,
        }
    }

    pub fn failed(&self) -> (r: bool)
        ensures
            r == !is_success(*self),
    {
        match *self {
            HRESULT::Success => false,
            HRESULT::FileNotFound => true,
            HRESULT::CorETypeLoad => true,
            HRESULT::CorEEntryPointNotFound => true,
            HRESULT::CorEDLLNotFound => true,
            HRESULT::Unknown(hr) => hr >= 0x8000_0000,
        }
    }

    /// Turns a failing outcome into an error that carries it.
    pub fn check(self) -> (r: IronCoreResult<()>)
        ensures
            is_success(self) ==> r is Ok,
            !is_success(self) ==> (r matches Err(IronCoreError::HresultError(h)) && h == self),
    {
        if self.failed() {
            return Err(IronCoreError::HresultError(self));
        }
        Ok(())
    }
}

impl From<u32> for HRESULT {
    fn from(hr: u32) -> (r: HRESULT)
        ensures
            r == hresult_of(hr),
    {
        match hr {
            CODE_OK => HRESULT::Success,
            CODE_FILE_NOT_FOUND => HRESULT::FileNotFound,
            CODE_TYPE_LOAD => HRESULT::CorETypeLoad,
            CODE_ENTRY_POINT_NOT_FOUND => HRESULT::CorEEntryPointNotFound,
            CODE_DLL_NOT_FOUND => HRESULT::CorEDLLNotFound,
            _ => HRESULT::Unknown(hr),
        }
    }
}

impl vstd::std_specs::convert::FromSpecImpl<u32> for HRESULT {
    open spec fn obeys_from_spec() -> bool {
        true
    }

    open spec fn from_spec(v: u32) -> HRESULT {
        hresult_of(v)
    }
}

/// Translation of status codes: zero is success, each named code maps to its
/// variant and fails, and every other code is kept as `Unknown`, failing
/// exactly when its high bit is set.
pub proof fn lemma_translation(code: u32)
    ensures
        hresult_of(0) == HRESULT::Success,
        is_success(hresult_of(0)),
        hresult_of(0x8007_0002) == HRESULT::FileNotFound,
        !is_success(hresult_of(0x8007_0002)),
        !is_success(hresult_of(CODE_TYPE_LOAD)),
        !is_success(hresult_of(CODE_ENTRY_POINT_NOT_FOUND)),
        !is_success(hresult_of(CODE_DLL_NOT_FOUND)),
        code != CODE_OK && code != CODE_FILE_NOT_FOUND && code != CODE_TYPE_LOAD
            && code != CODE_ENTRY_POINT_NOT_FOUND && code != CODE_DLL_NOT_FOUND ==> {
            &&& hresult_of(code) == HRESULT::Unknown(code)
            &&& code >= 0x8000_0000 ==> !is_success(hresult_of(code))
            &&& code < 0x8000_0000 ==> is_success(hresult_of(code))
        },
{
}

} // verus!
