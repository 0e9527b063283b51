//! General-purpose entry points: the life cycle of the library, its
//! description, and the head of its table of entry points.
use vstd::prelude::*;

use crate::cryptoki::bindings::{
    CKR_ARGUMENTS_BAD, CKR_OK, CK_FUNCTION_LIST, CK_INFO, CK_RV, CK_VERSION, CK_VOID_PTR, NULL_PTR,
};
use crate::error::CryptokiError;
use crate::state::StateAccessor;

verus! {

/// The status code of an operation that returns nothing on success.
pub open spec fn status_of(result: Result<(), CryptokiError>) -> CK_RV {
    match result {
        Ok(_) => CKR_OK,
        Err(e) => e.ck_rv(),
    }
}

/// The version of the interface and of the library: 0.1.
pub open spec fn library_version() -> CK_VERSION {
    CK_VERSION { major: 0, minor: 1 }
}

/// `info` is the description of this library: version 0.1 twice, no flags,
/// and blank manufacturer and description fields.
pub open spec fn is_library_info(info: CK_INFO) -> bool {
    &&& info.cryptokiVersion == library_version()
    &&& info.libraryVersion == library_version()
    &&& info.flags == 0
    &&& forall|i: int| 0 <= i < 32 ==> info.manufacturerID[i] == 0
    &&& forall|i: int| 0 <= i < 32 ==> info.libraryDescription[i] == 0
}

/// Initializes the library. `pInitArgs` is not read. A second
/// initialization without a finalization in between is refused with
/// `CKR_CRYPTOKI_ALREADY_INITIALIZED`.
pub fn C_Initialize(state: &mut StateAccessor, pInitArgs: CK_VOID_PTR) -> (rv: CK_RV)
    requires
        old(state).wf(),
    ensures
        final(state).wf(),
        rv == status_of(old(state)@.initialize_result()),
        rv == CKR_OK ==> final(state)@ == old(state)@.initialize(),
        rv != CKR_OK ==> *final(state) == *old(state),
{
    match state.initialize_state() {
        Ok(_) => CKR_OK,
        Err(err) => err.into_ck_rv(),
    }
}

/// Finalizes the library. `pReserved` must be the null pointer; otherwise
/// the call is refused with `CKR_ARGUMENTS_BAD`. A failed call changes
/// nothing.
pub fn C_Finalize(state: &mut StateAccessor, pReserved: CK_VOID_PTR) -> (rv: CK_RV)
    requires
        old(state).wf(),
    ensures
        final(state).wf(),
        rv == (if pReserved != NULL_PTR {
            CKR_ARGUMENTS_BAD
        } else {
            status_of(old(state)@.finalize_result())
        }),
        rv == CKR_OK ==> final(state)@ == old(state)@.finalize(),
        rv != CKR_OK ==> *final(state) == *old(state),
{
    if pReserved != NULL_PTR {
        return CKR_ARGUMENTS_BAD;
    }
    match state.finalize() {
        Ok(_) => CKR_OK,
        Err(err) => err.into_ck_rv(),
    }
}

/// Writes the description of the library to `pInfo`; refused with
/// `CKR_ARGUMENTS_BAD` where `pInfo` is null.
pub fn C_GetInfo(pInfo: Option<&mut CK_INFO>) -> (rv: CK_RV)
    ensures
        match pInfo {
            Some(info) => rv == CKR_OK && is_library_info(*final(info)),
            None => rv == CKR_ARGUMENTS_BAD,
        },
{
    match pInfo {
        Some(info) => {
            *info = CK_INFO {
                cryptokiVersion: CK_VERSION { major: 0, minor: 1 },
                manufacturerID: [0;32],
                flags: 0,
                libraryDescription: [0;32],
                libraryVersion: CK_VERSION { major: 0, minor: 1 },
            };
            CKR_OK
        },
        None => CKR_ARGUMENTS_BAD,
    }
}

/// Writes the head of the table of entry points to `ppFunctionList`;
/// refused with `CKR_ARGUMENTS_BAD` where `ppFunctionList` is null.
pub fn C_GetFunctionList(ppFunctionList: Option<&mut Option<CK_FUNCTION_LIST>>) -> (rv: CK_RV)
    ensures
        match ppFunctionList {
            Some(list) => rv == CKR_OK && *final(list) == Some(
                CK_FUNCTION_LIST { version: library_version() },
            ),
            None => rv == CKR_ARGUMENTS_BAD,
        },
{
    match ppFunctionList {
        Some(list) => {
            let version = CK_VERSION { major: 0, minor: 1 };
            *list = Some(CK_FUNCTION_LIST { version });
            CKR_OK
        },
        None => CKR_ARGUMENTS_BAD,
    }
}

} // verus!
