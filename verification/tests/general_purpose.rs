use cryptoki_core::cryptoki::bindings::{
    CKR_ARGUMENTS_BAD, CKR_CRYPTOKI_ALREADY_INITIALIZED, CKR_CRYPTOKI_NOT_INITIALIZED,
    CKR_FUNCTION_NOT_SUPPORTED, CKR_OK, CKR_SESSION_EXISTS, CK_FUNCTION_LIST, CK_INFO, CK_RV,
    CK_VERSION, NULL_PTR,
};
use cryptoki_core::cryptoki::encryption::{
    C_Encrypt, C_EncryptFinal, C_EncryptInit, C_EncryptUpdate,
};
use cryptoki_core::cryptoki::general_purpose::{
    C_Finalize, C_GetFunctionList, C_GetInfo, C_Initialize,
};
use cryptoki_core::state::StateAccessor;

#[test]
fn c_get_function_list_returns_ckr_ok() {
    let mut funct_list_ptr: Option<CK_FUNCTION_LIST> = None;
    let return_value = C_GetFunctionList(Some(&mut funct_list_ptr));
    assert_eq!(
        return_value, CKR_OK as CK_RV,
        "C_GetFunctionList didn't return CKR_OK",
    );
    assert!(
        funct_list_ptr.is_some(),
        "C_GetFunctionList set null pointer"
    );
}

#[test]
fn given_nullptr_c_get_function_list_returns_ckr_arguments_bad() {
    let return_value = C_GetFunctionList(None);
    assert_eq!(
        return_value, CKR_ARGUMENTS_BAD as CK_RV,
        "C_GetFunctionList didn't return CKR_ARGUMENTS_BAD",
    );
}

#[test]
fn function_list_carries_version_0_1() {
    let mut list: Option<CK_FUNCTION_LIST> = None;
    assert_eq!(C_GetFunctionList(Some(&mut list)), CKR_OK);
    let list = list.unwrap();
    assert_eq!(list.version, CK_VERSION { major: 0, minor: 1 });
}

#[test]
fn get_info_fills_the_description() {
    let mut info = CK_INFO {
        cryptokiVersion: CK_VERSION { major: 9, minor: 9 },
        manufacturerID: [7; 32],
        flags: 5,
        libraryDescription: [7; 32],
        libraryVersion: CK_VERSION { major: 9, minor: 9 },
    };
    assert_eq!(C_GetInfo(Some(&mut info)), CKR_OK);
    assert_eq!(info.cryptokiVersion, CK_VERSION { major: 0, minor: 1 });
    assert_eq!(info.libraryVersion, CK_VERSION { major: 0, minor: 1 });
    assert_eq!(info.flags, 0);
    assert_eq!(info.manufacturerID, [0u8; 32]);
    assert_eq!(info.libraryDescription, [0u8; 32]);
}

#[test]
fn get_info_given_null_returns_arguments_bad() {
    assert_eq!(C_GetInfo(None), CKR_ARGUMENTS_BAD);
}

#[test]
fn initialize_then_finalize_returns_ok() {
    let mut state = StateAccessor::new();
    assert!(!state.is_initialized());
    assert_eq!(C_Initialize(&mut state, NULL_PTR), CKR_OK);
    assert!(state.is_initialized());
    assert_eq!(C_Finalize(&mut state, NULL_PTR), CKR_OK);
    assert!(!state.is_initialized());
}

#[test]
fn initialize_ignores_its_argument() {
    let mut state = StateAccessor::new();
    assert_eq!(C_Initialize(&mut state, 0x1000), CKR_OK);
    assert!(state.is_initialized());
}

#[test]
fn initialize_twice_is_refused() {
    let mut state = StateAccessor::new();
    assert_eq!(C_Initialize(&mut state, NULL_PTR), CKR_OK);
    assert_eq!(
        C_Initialize(&mut state, NULL_PTR),
        CKR_CRYPTOKI_ALREADY_INITIALIZED
    );
    assert!(state.is_initialized());
}

#[test]
fn initialize_after_finalize_is_accepted() {
    let mut state = StateAccessor::new();
    assert_eq!(C_Initialize(&mut state, NULL_PTR), CKR_OK);
    assert_eq!(C_Finalize(&mut state, NULL_PTR), CKR_OK);
    assert_eq!(C_Initialize(&mut state, NULL_PTR), CKR_OK);
}

#[test]
fn finalize_given_reserved_pointer_returns_arguments_bad() {
    let mut state = StateAccessor::new();
    assert_eq!(C_Initialize(&mut state, NULL_PTR), CKR_OK);
    assert_eq!(C_Finalize(&mut state, 0x10), CKR_ARGUMENTS_BAD);
    assert!(state.is_initialized());
}

#[test]
fn finalize_before_initialize_is_refused() {
    let mut state = StateAccessor::new();
    assert_eq!(
        C_Finalize(&mut state, NULL_PTR),
        CKR_CRYPTOKI_NOT_INITIALIZED
    );
}

#[test]
fn finalize_with_open_session_is_refused() {
    let mut state = StateAccessor::new();
    assert_eq!(C_Initialize(&mut state, NULL_PTR), CKR_OK);
    let session = state.open_session(0).unwrap();
    assert_eq!(C_Finalize(&mut state, NULL_PTR), CKR_SESSION_EXISTS);
    assert!(state.is_initialized());
    assert_eq!(state.is_authenticated(session), Ok(false));
    assert_eq!(state.close_session(session), Ok(()));
    assert_eq!(C_Finalize(&mut state, NULL_PTR), CKR_OK);
}

#[test]
fn encryption_entry_points_are_not_supported() {
    let data = vec![1u8, 2, 3];
    let mut out = vec![9u8, 9];
    let mut len: u64 = 77;
    assert_eq!(C_EncryptInit(1, None, 2), CKR_FUNCTION_NOT_SUPPORTED);
    assert_eq!(
        C_Encrypt(1, Some(&data), Some(&mut out), Some(&mut len)),
        CKR_FUNCTION_NOT_SUPPORTED
    );
    assert_eq!(
        C_EncryptUpdate(1, Some(&data), Some(&mut out), Some(&mut len)),
        CKR_FUNCTION_NOT_SUPPORTED
    );
    assert_eq!(
        C_EncryptFinal(1, Some(&mut out), Some(&mut len)),
        CKR_FUNCTION_NOT_SUPPORTED
    );
    assert_eq!(C_Encrypt(1, None, None, None), CKR_FUNCTION_NOT_SUPPORTED);
    assert_eq!(out, vec![9u8, 9]);
    assert_eq!(len, 77);
}
