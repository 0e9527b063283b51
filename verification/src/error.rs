//! The closed set of failure conditions and the status code of each.
use vstd::prelude::*;

use crate::cryptoki::bindings::{
    CKR_ARGUMENTS_BAD, CKR_CRYPTOKI_ALREADY_INITIALIZED, CKR_CRYPTOKI_NOT_INITIALIZED,
    CKR_FUNCTION_NOT_SUPPORTED, CKR_GENERAL_ERROR, CKR_HOST_MEMORY, CKR_KEY_SIZE_RANGE,
    CKR_OBJECT_HANDLE_INVALID, CKR_OK, CKR_SESSION_EXISTS, CKR_SESSION_HANDLE_INVALID,
    CKR_WRAPPED_KEY_INVALID, CK_RV,
};

verus! {

/// Why an operation of the token failed.
#[derive(Clone, Copy, Debug, PartialEq, Eq, Structural)]
pub enum CryptokiError {
    /// A required argument was missing or unusable.
    ArgumentsBad,
    /// The session handle names no open session, or the session has no
    /// right to the object it asked for.
    SessionHandleInvalid,
    /// The object handle names no live object.
    ObjectHandleInvalid,
    /// The mechanism is not one the token offers.
    MechanismNotSupported,
    /// The object holds no key material yet.
    ValueNotPresent,
    /// The wrapped key is too short or does not decrypt to padded data.
    WrappedKeyMalformed,
    /// The key does not have the length the cipher needs.
    KeySizeRange,
    /// No storage, or no handle, is left for what was asked.
    HostMemory,
    /// The library was initialized already.
    AlreadyInitialized,
    /// The library has not been initialized.
    NotInitialized,
    /// Sessions are still open.
    SessionExists,
}

impl CryptokiError {
    /// The status code that stands for this condition at the boundary.
    ///
    /// An unsupported mechanism is reported with the code of an unsupported
    /// function.
    pub open spec fn ck_rv(self) -> CK_RV {
        match self {
            CryptokiError::ArgumentsBad => CKR_ARGUMENTS_BAD,
            CryptokiError::SessionHandleInvalid => CKR_SESSION_HANDLE_INVALID,
            CryptokiError::ObjectHandleInvalid => CKR_OBJECT_HANDLE_INVALID,
            CryptokiError::MechanismNotSupported => CKR_FUNCTION_NOT_SUPPORTED,
            CryptokiError::ValueNotPresent => CKR_GENERAL_ERROR,
            CryptokiError::WrappedKeyMalformed => CKR_WRAPPED_KEY_INVALID,
            CryptokiError::KeySizeRange => CKR_KEY_SIZE_RANGE,
            CryptokiError::HostMemory => CKR_HOST_MEMORY,
            CryptokiError::AlreadyInitialized => CKR_CRYPTOKI_ALREADY_INITIALIZED,
            CryptokiError::NotInitialized => CKR_CRYPTOKI_NOT_INITIALIZED,
            CryptokiError::SessionExists => CKR_SESSION_EXISTS,
        }
    }

    /// Maps the condition to its status code.
    pub fn into_ck_rv(self) -> (rv: CK_RV)
        ensures
            rv == self.ck_rv(),
            rv != CKR_OK,
    {
        match self {
            CryptokiError::ArgumentsBad => CKR_ARGUMENTS_BAD,
            CryptokiError::SessionHandleInvalid => CKR_SESSION_HANDLE_INVALID,
            CryptokiError::ObjectHandleInvalid => CKR_OBJECT_HANDLE_INVALID,
            CryptokiError::MechanismNotSupported => CKR_FUNCTION_NOT_SUPPORTED,
            CryptokiError::ValueNotPresent => CKR_GENERAL_ERROR,
            CryptokiError::WrappedKeyMalformed => CKR_WRAPPED_KEY_INVALID,
            CryptokiError::KeySizeRange => CKR_KEY_SIZE_RANGE,
            CryptokiError::HostMemory => CKR_HOST_MEMORY,
            CryptokiError::AlreadyInitialized => CKR_CRYPTOKI_ALREADY_INITIALIZED,
            CryptokiError::NotInitialized => CKR_CRYPTOKI_NOT_INITIALIZED,
            CryptokiError::SessionExists => CKR_SESSION_EXISTS,
        }
    }
}

} // verus!
