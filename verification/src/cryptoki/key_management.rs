//! Key-management entry points: key generation, the session's key pair,
//! and wrapping and unwrapping of keys.
use vstd::prelude::*;

use crate::cryptoki::bindings::{
    CKM_AES_KEY_GEN, CKR_ARGUMENTS_BAD, CKR_OK, CKR_WRAPPED_KEY_INVALID, CK_ATTRIBUTE,
    CK_MECHANISM, CK_OBJECT_HANDLE, CK_RV, CK_SESSION_HANDLE, CK_ULONG,
};
use crate::cryptoki::internals::encryption::{
    encryptable, random_block, unwrap, unwrap_spec, wrap_spec, wrap_with_iv, wrapped_key_len,
    wrapped_len, AES_IV_SIZE,
};
use crate::error::CryptokiError;
use crate::state::model::StateView;
use crate::state::object::cryptoki_object::{CryptokiObject, ObjectClass, ObjectView};
use crate::state::object::template::{build_spec, records, AttributeView, Template};
use crate::state::StateAccessor;

verus! {

/// The secret key that key generation stores: the attributes that the
/// template gives, and `key` as its material.
pub open spec fn generated_key(template: Seq<AttributeView>, key: Seq<u8>) -> ObjectView {
    ObjectView { class: ObjectClass::SecretKey, attributes: build_spec(template), value: Some(key) }
}

/// The private key that unwrapping stores: no attributes, and the recovered
/// bytes as its material.
pub open spec fn unwrapped_key(key: Seq<u8>) -> ObjectView {
    ObjectView { class: ObjectClass::PrivateKey, attributes: Seq::empty(), value: Some(key) }
}

/// The status of a key generation, which does not depend on the key
/// that is generated.
pub open spec fn generate_key_status(
    st: StateView,
    session: CK_SESSION_HANDLE,
    mechanism: Option<&CK_MECHANISM>,
    template_given: bool,
    destination_given: bool,
) -> CK_RV {
    if mechanism is None || !template_given || !destination_given {
        CKR_ARGUMENTS_BAD
    } else if mechanism->Some_0.mechanism != CKM_AES_KEY_GEN {
        CryptokiError::MechanismNotSupported.ck_rv()
    } else {
        match st.create_result(session) {
            Ok(_) => CKR_OK,
            Err(e) => e.ck_rv(),
        }
    }
}

/// The key material of the object `handle` as `session` sees it.
pub open spec fn key_value(
    st: StateView,
    session: CK_SESSION_HANDLE,
    handle: CK_OBJECT_HANDLE,
) -> Result<Seq<u8>, CryptokiError> {
    match st.resolve(session, handle) {
        Err(e) => Err(e),
        Ok(record) => match record.object.value {
            Some(value) => Ok(value),
            None => Err(CryptokiError::ValueNotPresent),
        },
    }
}

/// The two keys of a wrap call, the wrapping key first: both handles
/// resolve, and both objects hold key material.
pub open spec fn wrap_inputs(
    st: StateView,
    session: CK_SESSION_HANDLE,
    wrapping_key: CK_OBJECT_HANDLE,
    key: CK_OBJECT_HANDLE,
) -> Result<(Seq<u8>, Seq<u8>), CryptokiError> {
    match st.resolve(session, wrapping_key) {
        Err(e) => Err(e),
        Ok(_) => match key_value(st, session, key) {
            Err(e) => Err(e),
            Ok(target) => match key_value(st, session, wrapping_key) {
                Err(e) => Err(e),
                Ok(wrapping) => Ok((wrapping, target)),
            },
        },
    }
}

/// The status of a wrap call with an IV of `iv_len` bytes; of the IV it
/// depends on nothing but the length.
pub open spec fn wrap_key_status(
    st: StateView,
    session: CK_SESSION_HANDLE,
    wrapping_key: CK_OBJECT_HANDLE,
    key: CK_OBJECT_HANDLE,
    length_given: bool,
    iv_len: nat,
) -> CK_RV {
    if !length_given || iv_len != 16 {
        CKR_ARGUMENTS_BAD
    } else {
        match wrap_inputs(st, session, wrapping_key, key) {
            Err(e) => e.ck_rv(),
            Ok((wrapping, target)) => match encryptable(wrapping, target.len()) {
                Err(e) => e.ck_rv(),
                Ok(_) => CKR_OK,
            },
        }
    }
}

/// The key that an unwrap call recovers.
pub open spec fn unwrap_key_result(
    st: StateView,
    session: CK_SESSION_HANDLE,
    unwrapping_key: CK_OBJECT_HANDLE,
    wrapped: Seq<u8>,
) -> Result<Seq<u8>, CryptokiError> {
    if wrapped.len() < 16 {
        Err(CryptokiError::WrappedKeyMalformed)
    } else {
        match key_value(st, session, unwrapping_key) {
            Err(e) => Err(e),
            Ok(key) => unwrap_spec(key, wrapped),
        }
    }
}

/// The status of an unwrap call.
pub open spec fn unwrap_key_status(
    st: StateView,
    session: CK_SESSION_HANDLE,
    unwrapping_key: CK_OBJECT_HANDLE,
    wrapped: Option<&Vec<u8>>,
    destination_given: bool,
) -> CK_RV {
    if wrapped is None || !destination_given {
        CKR_ARGUMENTS_BAD
    } else {
        match unwrap_key_result(st, session, unwrapping_key, wrapped->Some_0@) {
            Err(e) => e.ck_rv(),
            Ok(_) => match st.create_result(session) {
                Err(e) => e.ck_rv(),
                Ok(_) => CKR_OK,
            },
        }
    }
}

/// The status of a key-pair call.
pub open spec fn generate_key_pair_status(
    st: StateView,
    session: CK_SESSION_HANDLE,
    public_given: bool,
    private_given: bool,
) -> CK_RV {
    if !public_given || !private_given {
        CKR_ARGUMENTS_BAD
    } else {
        match st.keypair_result(session) {
            Err(e) => e.ck_rv(),
            Ok(_) => CKR_OK,
        }
    }
}

/// Creates a secret key object that holds `key` as its material, as
/// `C_GenerateKey` does with the key it samples.
///
/// A null `pMechanism`, `pTemplate` or `phKey` is refused with
/// `CKR_ARGUMENTS_BAD`, a mechanism other than `CKM_AES_KEY_GEN` with the
/// status of an unsupported mechanism, and a session that is not open with
/// `CKR_SESSION_HANDLE_INVALID`. Only a call that returns `CKR_OK` changes
/// the state or writes the new handle to `phKey`.
pub fn generate_key_with(
    state: &mut StateAccessor,
    hSession: CK_SESSION_HANDLE,
    pMechanism: Option<&CK_MECHANISM>,
    pTemplate: Option<Vec<CK_ATTRIBUTE>>,
    phKey: Option<&mut CK_OBJECT_HANDLE>,
    key: Vec<u8>,
) -> (rv: CK_RV)
    requires
        old(state).wf(),
    ensures
        final(state).wf(),
        rv == generate_key_status(
            old(state)@,
            hSession,
            pMechanism,
            pTemplate is Some,
            phKey is Some,
        ),
        pMechanism is None || pTemplate is None || phKey is None ==> rv == CKR_ARGUMENTS_BAD,
        pMechanism is Some && pTemplate is Some && phKey is Some && pMechanism->Some_0.mechanism
            != CKM_AES_KEY_GEN ==> rv == CryptokiError::MechanismNotSupported.ck_rv(),
        rv == CKR_OK ==> final(state)@ == old(state)@.create(
            hSession,
            generated_key(records(pTemplate->Some_0@), key@),
            false,
        ),
        rv != CKR_OK ==> *final(state) == *old(state),
        match phKey {
            Some(handle) => *final(handle) == (if rv == CKR_OK {
                old(state)@.create_result(hSession)->Ok_0
            } else {
                *handle
            }),
            None => true,
        },
{
    let (mechanism, raw, destination) = match (pMechanism, pTemplate, phKey) {
        (Some(mechanism), Some(raw), Some(destination)) => (mechanism, raw, destination),
        _ => {
            return CKR_ARGUMENTS_BAD;
        },
    };
    if mechanism.mechanism != CKM_AES_KEY_GEN {
        return CryptokiError::MechanismNotSupported.into_ck_rv();
    }
    let template = Template::build(raw);
    let mut object = CryptokiObject::from_template(ObjectClass::SecretKey, template);
    object.store_value(key);
    match state.create_object(hSession, object) {
        Ok(handle) => {
            *destination = handle;
            CKR_OK
        },
        Err(err) => err.into_ck_rv(),
    }
}

/// Generates a secret key and creates a new object for it: an AES-128 key
/// of sixteen bytes from the operating system's random source, with the
/// attributes of the template.
///
/// A null `pMechanism`, `pTemplate` or `phKey` is refused with
/// `CKR_ARGUMENTS_BAD`, a mechanism other than `CKM_AES_KEY_GEN` with the
/// status of an unsupported mechanism, and a session that is not open with
/// `CKR_SESSION_HANDLE_INVALID`. Only a call that returns `CKR_OK` changes
/// the state or writes the new handle to `phKey`.
pub fn C_GenerateKey(
    state: &mut StateAccessor,
    hSession: CK_SESSION_HANDLE,
    pMechanism: Option<&CK_MECHANISM>,
    pTemplate: Option<Vec<CK_ATTRIBUTE>>,
    phKey: Option<&mut CK_OBJECT_HANDLE>,
) -> (rv: CK_RV)
    requires
        old(state).wf(),
    ensures
        final(state).wf(),
        rv == generate_key_status(
            old(state)@,
            hSession,
            pMechanism,
            pTemplate is Some,
            phKey is Some,
        ),
        pMechanism is None || pTemplate is None || phKey is None ==> rv == CKR_ARGUMENTS_BAD,
        pMechanism is Some && pTemplate is Some && phKey is Some && pMechanism->Some_0.mechanism
            != CKM_AES_KEY_GEN ==> rv == CryptokiError::MechanismNotSupported.ck_rv(),
        rv == CKR_OK ==> ({
            let handle = old(state)@.create_result(hSession)->Ok_0;
            let stored = final(state)@.objects[handle].object.value;
            &&& stored is Some
            &&& stored->Some_0.len() == 16
            &&& final(state)@ == old(state)@.create(
                hSession,
                generated_key(records(pTemplate->Some_0@), stored->Some_0),
                false,
            )
        }),
        rv != CKR_OK ==> *final(state) == *old(state),
        match phKey {
            Some(handle) => *final(handle) == (if rv == CKR_OK {
                old(state)@.create_result(hSession)->Ok_0
            } else {
                *handle
            }),
            None => true,
        },
{
    let key = random_block();
    generate_key_with(state, hSession, pMechanism, pTemplate, phKey, key)
}

/// Hands out the key pair of the session: the handle of its public key to
/// `phPublicKey` and that of its private key to `phPrivateKey`. The
/// mechanism and the templates are not read.
///
/// A null `phPublicKey` or `phPrivateKey` is refused with
/// `CKR_ARGUMENTS_BAD`, a session that is not open with
/// `CKR_SESSION_HANDLE_INVALID`; a refused call writes nothing.
pub fn C_GenerateKeyPair(
    state: &StateAccessor,
    hSession: CK_SESSION_HANDLE,
    pMechanism: Option<&CK_MECHANISM>,
    pPublicKeyTemplate: Option<&Vec<CK_ATTRIBUTE>>,
    pPrivateKeyTemplate: Option<&Vec<CK_ATTRIBUTE>>,
    phPublicKey: Option<&mut CK_OBJECT_HANDLE>,
    phPrivateKey: Option<&mut CK_OBJECT_HANDLE>,
) -> (rv: CK_RV)
    requires
        state.wf(),
    ensures
        rv == generate_key_pair_status(state@, hSession, phPublicKey is Some, phPrivateKey is Some),
        phPublicKey is None || phPrivateKey is None ==> rv == CKR_ARGUMENTS_BAD,
        match phPublicKey {
            Some(handle) => *final(handle) == (if rv == CKR_OK {
                state@.keypair_result(hSession)->Ok_0.1
            } else {
                *handle
            }),
            None => true,
        },
        match phPrivateKey {
            Some(handle) => *final(handle) == (if rv == CKR_OK {
                state@.keypair_result(hSession)->Ok_0.0
            } else {
                *handle
            }),
            None => true,
        },
{
    let (public_destination, private_destination) = match (phPublicKey, phPrivateKey) {
        (Some(public_destination), Some(private_destination)) => (
            public_destination,
            private_destination,
        ),
        _ => {
            return CKR_ARGUMENTS_BAD;
        },
    };
    let (private_key_handle, pubkey_handle) = match state.get_keypair(hSession) {
        Ok(val) => val,
        Err(err) => {
            return err.into_ck_rv();
        },
    };
    *public_destination = pubkey_handle;
    *private_destination = private_key_handle;
    CKR_OK
}

/// Wraps the key `hKey` under `hWrappingKey` with the IV `iv`, as
/// `C_WrapKey` does with the IV it samples.
///
/// The length of the wrapped key is written to `pulWrappedKeyLen` on every
/// successful call; the wrapped key itself, the IV followed by the
/// ciphertext, is written to `pWrappedKey` where that is not null. A call
/// with a null `pWrappedKey` therefore asks for the length alone, and
/// encrypts nothing.
///
/// A null `pulWrappedKeyLen` and an IV that is not one block long are
/// refused with `CKR_ARGUMENTS_BAD`; a handle that does not resolve, an
/// object without key material and a wrapping key of the wrong size are
/// refused with their own status. A call that does not return `CKR_OK`
/// writes nothing.
pub fn wrap_key_with(
    state: &StateAccessor,
    hSession: CK_SESSION_HANDLE,
    pMechanism: Option<&CK_MECHANISM>,
    hWrappingKey: CK_OBJECT_HANDLE,
    hKey: CK_OBJECT_HANDLE,
    pWrappedKey: Option<&mut Vec<u8>>,
    pulWrappedKeyLen: Option<&mut CK_ULONG>,
    iv: Vec<u8>,
) -> (rv: CK_RV)
    requires
        state.wf(),
    ensures
        rv == wrap_key_status(
            state@,
            hSession,
            hWrappingKey,
            hKey,
            pulWrappedKeyLen is Some,
            iv@.len(),
        ),
        pulWrappedKeyLen is None ==> rv == CKR_ARGUMENTS_BAD,
        rv == CKR_OK ==> wrapped_len(
            wrap_inputs(state@, hSession, hWrappingKey, hKey)->Ok_0.1.len(),
        ) <= u64::MAX,
        match pulWrappedKeyLen {
            Some(len) => *final(len) == (if rv == CKR_OK {
                wrapped_len(wrap_inputs(state@, hSession, hWrappingKey, hKey)->Ok_0.1.len()) as u64
            } else {
                *len
            }),
            None => true,
        },
        match pWrappedKey {
            Some(wrapped) => if rv == CKR_OK {
                let (wrapping, target) = wrap_inputs(state@, hSession, hWrappingKey, hKey)->Ok_0;
                &&& wrap_spec(wrapping, target, iv@) == Ok::<Seq<u8>, CryptokiError>(
                    final(wrapped)@,
                )
                &&& final(wrapped)@.len() == wrapped_len(target.len())
                &&& unwrap_spec(wrapping, final(wrapped)@) == Ok::<Seq<u8>, CryptokiError>(target)
            } else {
                final(wrapped)@ == wrapped@
            },
            None => true,
        },
{
    let length_destination = match pulWrappedKeyLen {
        Some(length_destination) => length_destination,
        None => {
            return CKR_ARGUMENTS_BAD;
        },
    };
    if iv.len() != AES_IV_SIZE {
        return CKR_ARGUMENTS_BAD;
    }
    let wrapping_key = match state.get_object(hSession, hWrappingKey) {
        Ok(val) => val,
        Err(err) => {
            return err.into_ck_rv();
        },
    };
    let private_key = match state.get_object(hSession, hKey) {
        Ok(val) => val,
        Err(err) => {
            return err.into_ck_rv();
        },
    };
    let private_key = match private_key.get_value() {
        Ok(val) => val,
        Err(err) => {
            return err.into_ck_rv();
        },
    };
    let key = match wrapping_key.get_value() {
        Ok(val) => val,
        Err(err) => {
            return err.into_ck_rv();
        },
    };
    let length = match wrapped_key_len(key, private_key) {
        Ok(val) => val,
        Err(err) => {
            return err.into_ck_rv();
        },
    };
    match pWrappedKey {
        Some(destination) => {
            let ciphertext_with_iv = match wrap_with_iv(key, private_key, iv) {
                Ok(val) => val,
                Err(err) => {
                    return err.into_ck_rv();
                },
            };
            *length_destination = length as CK_ULONG;
            *destination = ciphertext_with_iv;
        },
        None => {
            *length_destination = length as CK_ULONG;
        },
    }
    CKR_OK
}

/// Wraps (encrypts) the key `hKey` under `hWrappingKey`, with an IV sampled
/// for this call from the operating system's random source.
///
/// The length of the wrapped key is written to `pulWrappedKeyLen` on every
/// successful call; it depends on the length of the key material alone, so
/// a call with a null `pWrappedKey` learns the length that a later call
/// with a destination will fill. The wrapped key is the sampled IV followed
/// by the ciphertext under it, and unwrapping it under the same wrapping
/// key gives the key material back.
///
/// A null `pulWrappedKeyLen` is refused with `CKR_ARGUMENTS_BAD`; a handle
/// that does not resolve, an object without key material and a wrapping key
/// of the wrong size are refused with their own status. A call that does
/// not return `CKR_OK` writes nothing.
pub fn C_WrapKey(
    state: &StateAccessor,
    hSession: CK_SESSION_HANDLE,
    pMechanism: Option<&CK_MECHANISM>,
    hWrappingKey: CK_OBJECT_HANDLE,
    hKey: CK_OBJECT_HANDLE,
    pWrappedKey: Option<&mut Vec<u8>>,
    pulWrappedKeyLen: Option<&mut CK_ULONG>,
) -> (rv: CK_RV)
    requires
        state.wf(),
    ensures
        rv == wrap_key_status(state@, hSession, hWrappingKey, hKey, pulWrappedKeyLen is Some, 16),
        pulWrappedKeyLen is None ==> rv == CKR_ARGUMENTS_BAD,
        match pulWrappedKeyLen {
            Some(len) => *final(len) == (if rv == CKR_OK {
                wrapped_len(wrap_inputs(state@, hSession, hWrappingKey, hKey)->Ok_0.1.len()) as u64
            } else {
                *len
            }),
            None => true,
        },
        match pWrappedKey {
            Some(wrapped) => if rv == CKR_OK {
                let (wrapping, target) = wrap_inputs(state@, hSession, hWrappingKey, hKey)->Ok_0;
                &&& final(wrapped)@.len() == wrapped_len(target.len())
                &&& wrap_spec(wrapping, target, final(wrapped)@.take(16)) == Ok::<
                    Seq<u8>,
                    CryptokiError,
                >(final(wrapped)@)
                &&& unwrap_spec(wrapping, final(wrapped)@) == Ok::<Seq<u8>, CryptokiError>(target)
            } else {
                final(wrapped)@ == wrapped@
            },
            None => true,
        },
        rv == CKR_OK ==> wrapped_len(
            wrap_inputs(state@, hSession, hWrappingKey, hKey)->Ok_0.1.len(),
        ) <= u64::MAX,
{
    let iv = random_block();
    let ghost sampled = iv@;
    let rv = wrap_key_with(
        state,
        hSession,
        pMechanism,
        hWrappingKey,
        hKey,
        pWrappedKey,
        pulWrappedKeyLen,
        iv,
    );
    proof {
        if rv == CKR_OK {
            let (wrapping, target) = wrap_inputs(state@, hSession, hWrappingKey, hKey)->Ok_0;
            let wrapped = wrap_spec(wrapping, target, sampled)->Ok_0;
            assert(wrapped.take(16) == sampled);
        }
    }
    rv
}

/// Unwraps (decrypts) a wrapped key under `hUnwrappingKey` and creates a
/// private key object for it, ephemeral to the session: it is destroyed
/// when the session closes. The mechanism and the template are not read.
///
/// A null `pWrappedKey` or `phKey` is refused with `CKR_ARGUMENTS_BAD`, and
/// a wrapped key shorter than one cipher block with
/// `CKR_WRAPPED_KEY_INVALID`, both before the state is looked at. A handle
/// that does not resolve, an unwrapping key without material or of the
/// wrong size, and a wrapped key that does not decrypt to padded data are
/// refused with their own status. Only a call that returns `CKR_OK` changes
/// the state or writes the new handle to `phKey`.
pub fn C_UnwrapKey(
    state: &mut StateAccessor,
    hSession: CK_SESSION_HANDLE,
    pMechanism: Option<&CK_MECHANISM>,
    hUnwrappingKey: CK_OBJECT_HANDLE,
    pWrappedKey: Option<&Vec<u8>>,
    pTemplate: Option<&Vec<CK_ATTRIBUTE>>,
    phKey: Option<&mut CK_OBJECT_HANDLE>,
) -> (rv: CK_RV)
    requires
        old(state).wf(),
    ensures
        final(state).wf(),
        rv == unwrap_key_status(old(state)@, hSession, hUnwrappingKey, pWrappedKey, phKey is Some),
        pWrappedKey is None || phKey is None ==> rv == CKR_ARGUMENTS_BAD,
        pWrappedKey is Some && phKey is Some && pWrappedKey->Some_0@.len() < 16 ==> rv
            == CKR_WRAPPED_KEY_INVALID,
        rv == CKR_OK ==> final(state)@ == old(state)@.create(
            hSession,
            unwrapped_key(
                unwrap_key_result(old(state)@, hSession, hUnwrappingKey, pWrappedKey->Some_0@)->Ok_0,
            ),
            true,
        ),
        rv != CKR_OK ==> *final(state) == *old(state),
        match phKey {
            Some(handle) => *final(handle) == (if rv == CKR_OK {
                old(state)@.create_result(hSession)->Ok_0
            } else {
                *handle
            }),
            None => true,
        },
{
    let (wrapped, destination) = match (pWrappedKey, phKey) {
        (Some(wrapped), Some(destination)) => (wrapped, destination),
        _ => {
            return CKR_ARGUMENTS_BAD;
        },
    };
    if wrapped.len() < AES_IV_SIZE {
        return CryptokiError::WrappedKeyMalformed.into_ck_rv();
    }
    let unwrapping_key = match state.get_object(hSession, hUnwrappingKey) {
        Ok(val) => val,
        Err(err) => {
            return err.into_ck_rv();
        },
    };
    let key = match unwrapping_key.get_value() {
        Ok(val) => val,
        Err(err) => {
            return err.into_ck_rv();
        },
    };
    let plaintext = match unwrap(key, wrapped) {
        Ok(val) => val,
        Err(err) => {
            return err.into_ck_rv();
        },
    };
    let mut private_key_object = CryptokiObject::new(ObjectClass::PrivateKey);
    private_key_object.store_value(plaintext);
    match state.create_ephemeral_object(hSession, private_key_object) {
        Ok(handle) => {
            *destination = handle;
            CKR_OK
        },
        Err(err) => err.into_ck_rv(),
    }
}

} // verus!
