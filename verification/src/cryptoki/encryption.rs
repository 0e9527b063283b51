//! Encryption entry points. The token encrypts only to wrap a key, so each
//! of them reports that the function is not supported and touches nothing.
use vstd::prelude::*;

use crate::cryptoki::bindings::{
    CKR_FUNCTION_NOT_SUPPORTED, CK_MECHANISM, CK_OBJECT_HANDLE, CK_RV, CK_SESSION_HANDLE, CK_ULONG,
};

verus! {

/// Initializes an encryption operation: not supported.
pub fn C_EncryptInit(
    hSession: CK_SESSION_HANDLE,
    pMechanism: Option<&CK_MECHANISM>,
    hKey: CK_OBJECT_HANDLE,
) -> (rv: CK_RV)
    ensures
        rv == CKR_FUNCTION_NOT_SUPPORTED,
{
    CKR_FUNCTION_NOT_SUPPORTED
}

/// Encrypts single-part data: not supported. Neither destination is
/// written.
pub fn C_Encrypt(
    hSession: CK_SESSION_HANDLE,
    pData: Option<&Vec<u8>>,
    pEncryptedData: Option<&mut Vec<u8>>,
    pulEncryptedDataLen: Option<&mut CK_ULONG>,
) -> (rv: CK_RV)
    ensures
        rv == CKR_FUNCTION_NOT_SUPPORTED,
        match pEncryptedData {
            Some(data) => *final(data) == *data,
            None => true,
        },
        match pulEncryptedDataLen {
            Some(len) => *final(len) == *len,
            None => true,
        },
{
    CKR_FUNCTION_NOT_SUPPORTED
}

/// Continues a multiple-part encryption: not supported. Neither destination
/// is written.
pub fn C_EncryptUpdate(
    hSession: CK_SESSION_HANDLE,
    pPart: Option<&Vec<u8>>,
    pEncryptedPart: Option<&mut Vec<u8>>,
    pulEncryptedPartLen: Option<&mut CK_ULONG>,
) -> (rv: CK_RV)
    ensures
        rv == CKR_FUNCTION_NOT_SUPPORTED,
        match pEncryptedPart {
            Some(part) => *final(part) == *part,
            None => true,
        },
        match pulEncryptedPartLen {
            Some(len) => *final(len) == *len,
            None => true,
        },
{
    CKR_FUNCTION_NOT_SUPPORTED
}

/// Finishes a multiple-part encryption: not supported. Neither destination
/// is written.
pub fn C_EncryptFinal(
    hSession: CK_SESSION_HANDLE,
    pLastEncryptedPart: Option<&mut Vec<u8>>,
    pulLastEncryptedPartLen: Option<&mut CK_ULONG>,
) -> (rv: CK_RV)
    ensures
        rv == CKR_FUNCTION_NOT_SUPPORTED,
        match pLastEncryptedPart {
            Some(part) => *final(part) == *part,
            None => true,
        },
        match pulLastEncryptedPartLen {
            Some(len) => *final(len) == *len,
            None => true,
        },
{
    CKR_FUNCTION_NOT_SUPPORTED
}

} // verus!
