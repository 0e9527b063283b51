use cryptoki_core::cryptoki::bindings::{
    CKR_ARGUMENTS_BAD, CKR_CRYPTOKI_NOT_INITIALIZED, CKR_OBJECT_HANDLE_INVALID, CKR_OK,
    CKR_SESSION_HANDLE_INVALID,
};
use cryptoki_core::cryptoki::object_management::C_DestroyObject;
use cryptoki_core::cryptoki::session_management::{C_CloseSession, C_OpenSession};
use cryptoki_core::error::CryptokiError;
use cryptoki_core::state::object::cryptoki_object::{CryptokiObject, ObjectClass};
use cryptoki_core::state::StateAccessor;

#[test]
fn open_session_writes_the_new_handle() {
    let mut state = StateAccessor::new();
    assert_eq!(state.initialize_state(), Ok(()));
    let mut first = 0;
    let mut second = 0;
    assert_eq!(C_OpenSession(&mut state, 0, 4, Some(&mut first)), CKR_OK);
    assert_eq!(C_OpenSession(&mut state, 1, 6, Some(&mut second)), CKR_OK);
    assert_eq!((first, second), (1, 2));
    assert_eq!(state.is_authenticated(first), Ok(false));
    assert_eq!(state.get_keypair(second), Ok((3, 4)));
}

#[test]
fn open_session_given_null_pointer_returns_arguments_bad() {
    let mut state = StateAccessor::new();
    assert_eq!(C_OpenSession(&mut state, 0, 4, None), CKR_ARGUMENTS_BAD);
    assert_eq!(state.initialize_state(), Ok(()));
    assert_eq!(C_OpenSession(&mut state, 0, 4, None), CKR_ARGUMENTS_BAD);
    assert_eq!(
        state.is_authenticated(1),
        Err(CryptokiError::SessionHandleInvalid)
    );
    let mut handle = 0;
    assert_eq!(C_OpenSession(&mut state, 0, 4, Some(&mut handle)), CKR_OK);
    assert_eq!(handle, 1);
}

#[test]
fn open_session_before_initialize_is_refused() {
    let mut state = StateAccessor::new();
    let mut handle = 77;
    assert_eq!(
        C_OpenSession(&mut state, 0, 4, Some(&mut handle)),
        CKR_CRYPTOKI_NOT_INITIALIZED
    );
    assert_eq!(handle, 77);
}

#[test]
fn close_session_closes_once() {
    let mut state = StateAccessor::new();
    assert_eq!(state.initialize_state(), Ok(()));
    let mut handle = 0;
    assert_eq!(C_OpenSession(&mut state, 0, 4, Some(&mut handle)), CKR_OK);
    assert_eq!(C_CloseSession(&mut state, handle + 1), CKR_SESSION_HANDLE_INVALID);
    assert_eq!(C_CloseSession(&mut state, handle), CKR_OK);
    assert_eq!(C_CloseSession(&mut state, handle), CKR_SESSION_HANDLE_INVALID);
    assert_eq!(state.finalize(), Ok(()));
}

#[test]
fn destroy_object_removes_one_object() {
    let mut state = StateAccessor::new();
    assert_eq!(state.initialize_state(), Ok(()));
    let session = state.open_session(0).unwrap();
    let mut object = CryptokiObject::new(ObjectClass::SecretKey);
    object.store_value(vec![1, 2]);
    let kept = state.create_object(session, object).unwrap();
    let gone = state
        .create_object(session, CryptokiObject::new(ObjectClass::SecretKey))
        .unwrap();
    assert_eq!(C_DestroyObject(&mut state, session + 1, gone), CKR_SESSION_HANDLE_INVALID);
    assert_eq!(C_DestroyObject(&mut state, session, gone), CKR_OK);
    assert_eq!(C_DestroyObject(&mut state, session, gone), CKR_OBJECT_HANDLE_INVALID);
    assert_eq!(
        state.get_object(session, kept).unwrap().get_value(),
        Ok(&vec![1u8, 2])
    );
}
