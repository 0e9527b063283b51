use cryptoki_core::error::CryptokiError;
use cryptoki_core::state::object::cryptoki_object::{CryptokiObject, ObjectClass};
use cryptoki_core::state::StateAccessor;

fn secret(bytes: &[u8]) -> CryptokiObject {
    let mut object = CryptokiObject::new(ObjectClass::SecretKey);
    object.store_value(bytes.to_vec());
    object
}

fn initialized() -> StateAccessor {
    let mut state = StateAccessor::new();
    assert_eq!(state.initialize_state(), Ok(()));
    state
}

#[test]
fn fresh_state_is_not_initialized() {
    let mut state = StateAccessor::new();
    assert!(!state.is_initialized());
    assert_eq!(state.open_session(0), Err(CryptokiError::NotInitialized));
    assert_eq!(state.finalize(), Err(CryptokiError::NotInitialized));
    assert_eq!(state.close_session(1), Err(CryptokiError::SessionHandleInvalid));
    assert!(matches!(
        state.get_object(1, 1),
        Err(CryptokiError::ObjectHandleInvalid)
    ));
    assert_eq!(
        state.create_object(1, secret(&[1])),
        Err(CryptokiError::SessionHandleInvalid)
    );
}

#[test]
fn initialize_state_twice_fails() {
    let mut state = initialized();
    assert_eq!(
        state.initialize_state(),
        Err(CryptokiError::AlreadyInitialized)
    );
    assert!(state.is_initialized());
}

#[test]
fn session_handles_count_up_from_one() {
    let mut state = initialized();
    assert_eq!(state.open_session(0), Ok(1));
    assert_eq!(state.open_session(0), Ok(2));
    assert_eq!(state.close_session(1), Ok(()));
    assert_eq!(state.open_session(5), Ok(3));
    assert_eq!(state.close_session(1), Err(CryptokiError::SessionHandleInvalid));
}

#[test]
fn open_session_creates_the_key_pair() {
    let mut state = initialized();
    let session = state.open_session(0).unwrap();
    assert_eq!(state.get_keypair(session), Ok((1, 2)));
    let private_key = state.get_object(session, 1).unwrap();
    assert_eq!(private_key.class(), ObjectClass::PrivateKey);
    assert_eq!(private_key.get_value(), Err(CryptokiError::ValueNotPresent));
    let public_key = state.get_object(session, 2).unwrap();
    assert_eq!(public_key.class(), ObjectClass::PublicKey);
    let other = state.open_session(0).unwrap();
    assert_eq!(state.get_keypair(other), Ok((3, 4)));
    assert_eq!(
        state.get_keypair(99),
        Err(CryptokiError::SessionHandleInvalid)
    );
}

#[test]
fn created_handles_are_unique() {
    let mut state = initialized();
    let session = state.open_session(0).unwrap();
    let mut seen: Vec<u64> = vec![1, 2];
    for i in 0..20u8 {
        let handle = if i % 2 == 0 {
            state.create_object(session, secret(&[i])).unwrap()
        } else {
            state.create_ephemeral_object(session, secret(&[i])).unwrap()
        };
        assert!(!seen.contains(&handle));
        assert_ne!(handle, 0);
        seen.push(handle);
    }
    for (i, handle) in seen.iter().skip(2).enumerate() {
        let object = state.get_object(session, *handle).unwrap();
        assert_eq!(object.get_value(), Ok(&vec![i as u8]));
    }
}

#[test]
fn destroyed_handle_is_not_handed_out_again() {
    let mut state = initialized();
    let session = state.open_session(0).unwrap();
    let first = state.create_object(session, secret(&[1])).unwrap();
    assert_eq!(first, 3);
    assert_eq!(state.destroy_object(session, first), Ok(()));
    let second = state.create_object(session, secret(&[2])).unwrap();
    assert_eq!(second, 4);
    assert!(matches!(
        state.get_object(session, first),
        Err(CryptokiError::ObjectHandleInvalid)
    ));
    assert_eq!(
        state.destroy_object(session, first),
        Err(CryptokiError::ObjectHandleInvalid)
    );
}

#[test]
fn close_session_destroys_ephemeral_objects_only() {
    let mut state = initialized();
    let session = state.open_session(0).unwrap();
    let witness = state.open_session(0).unwrap();
    let persistent = state.create_object(session, secret(&[1, 1])).unwrap();
    let ephemeral_a = state.create_ephemeral_object(session, secret(&[2])).unwrap();
    let ephemeral_b = state.create_ephemeral_object(session, secret(&[3])).unwrap();
    let foreign = state.create_ephemeral_object(witness, secret(&[4])).unwrap();
    let (private_key, public_key) = state.get_keypair(session).unwrap();

    assert_eq!(state.close_session(session), Ok(()));

    for handle in [ephemeral_a, ephemeral_b, private_key, public_key] {
        assert!(matches!(
            state.get_object(witness, handle),
            Err(CryptokiError::ObjectHandleInvalid)
        ));
        assert!(matches!(
            state.get_object(session, handle),
            Err(CryptokiError::ObjectHandleInvalid)
        ));
    }
    let kept = state.get_object(witness, persistent).unwrap();
    assert_eq!(kept.get_value(), Ok(&vec![1u8, 1]));
    let kept = state.get_object(witness, foreign).unwrap();
    assert_eq!(kept.get_value(), Ok(&vec![4u8]));
    assert!(matches!(
        state.get_object(session, persistent),
        Err(CryptokiError::SessionHandleInvalid)
    ));
}

#[test]
fn ephemeral_object_is_private_to_its_session() {
    let mut state = initialized();
    let owner = state.open_session(0).unwrap();
    let other = state.open_session(0).unwrap();
    let ephemeral = state.create_ephemeral_object(owner, secret(&[1])).unwrap();
    let persistent = state.create_object(owner, secret(&[2])).unwrap();
    assert!(state.get_object(owner, ephemeral).is_ok());
    assert!(matches!(
        state.get_object(other, ephemeral),
        Err(CryptokiError::SessionHandleInvalid)
    ));
    assert!(state.get_object(other, persistent).is_ok());
    assert_eq!(
        state.destroy_object(other, ephemeral),
        Err(CryptokiError::SessionHandleInvalid)
    );
    assert_eq!(state.destroy_object(other, persistent), Ok(()));
}

#[test]
fn get_object_names_the_invalid_handle() {
    let mut state = initialized();
    let session = state.open_session(0).unwrap();
    let handle = state.create_object(session, secret(&[1])).unwrap();
    assert!(matches!(
        state.get_object(session, handle + 1),
        Err(CryptokiError::ObjectHandleInvalid)
    ));
    assert!(matches!(
        state.get_object(session + 1, handle),
        Err(CryptokiError::SessionHandleInvalid)
    ));
    assert!(matches!(
        state.get_object(session + 1, handle + 1),
        Err(CryptokiError::ObjectHandleInvalid)
    ));
    assert!(matches!(
        state.get_object(session, 0),
        Err(CryptokiError::ObjectHandleInvalid)
    ));
}

#[test]
fn create_object_needs_an_open_session() {
    let mut state = initialized();
    assert_eq!(
        state.create_object(1, secret(&[1])),
        Err(CryptokiError::SessionHandleInvalid)
    );
    assert_eq!(
        state.create_ephemeral_object(1, secret(&[1])),
        Err(CryptokiError::SessionHandleInvalid)
    );
    let session = state.open_session(0).unwrap();
    assert_eq!(state.close_session(session), Ok(()));
    assert_eq!(
        state.create_object(session, secret(&[1])),
        Err(CryptokiError::SessionHandleInvalid)
    );
}

#[test]
fn login_authenticates_the_session() {
    let mut state = initialized();
    let session = state.open_session(0).unwrap();
    let other = state.open_session(0).unwrap();
    assert_eq!(state.is_authenticated(session), Ok(false));
    assert_eq!(state.login(session), Ok(()));
    assert_eq!(state.is_authenticated(session), Ok(true));
    assert_eq!(state.is_authenticated(other), Ok(false));
    assert_eq!(state.login(session), Ok(()));
    assert_eq!(state.is_authenticated(session), Ok(true));
    assert_eq!(state.login(77), Err(CryptokiError::SessionHandleInvalid));
    assert_eq!(
        state.is_authenticated(77),
        Err(CryptokiError::SessionHandleInvalid)
    );
    assert_eq!(state.get_keypair(session), Ok((1, 2)));
}

#[test]
fn finalize_discards_objects_and_keeps_counting() {
    let mut state = initialized();
    let session = state.open_session(0).unwrap();
    let persistent = state.create_object(session, secret(&[1])).unwrap();
    assert_eq!(state.finalize(), Err(CryptokiError::SessionExists));
    assert_eq!(state.close_session(session), Ok(()));
    assert_eq!(state.finalize(), Ok(()));
    assert!(!state.is_initialized());
    assert_eq!(state.initialize_state(), Ok(()));
    let again = state.open_session(0).unwrap();
    assert_eq!(again, session + 1);
    assert!(matches!(
        state.get_object(again, persistent),
        Err(CryptokiError::ObjectHandleInvalid)
    ));
    let fresh = state.create_object(again, secret(&[2])).unwrap();
    assert!(fresh > persistent);
}
