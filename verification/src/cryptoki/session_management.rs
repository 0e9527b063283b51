//! Session entry points: opening and closing a session.
use vstd::prelude::*;

use crate::cryptoki::bindings::{
    CKR_ARGUMENTS_BAD, CKR_OK, CK_FLAGS, CK_RV, CK_SESSION_HANDLE, CK_SLOT_ID,
};
use crate::cryptoki::general_purpose::status_of;
use crate::state::model::StateView;
use crate::state::StateAccessor;

verus! {

/// The status of a call that opens a session.
pub open spec fn open_session_status(st: StateView, destination_given: bool) -> CK_RV {
    if !destination_given {
        CKR_ARGUMENTS_BAD
    } else {
        match st.open_session_result() {
            Ok(_) => CKR_OK,
            Err(e) => e.ck_rv(),
        }
    }
}

/// Opens a session on the token in slot `slotID` and writes its handle to
/// `phSession`. The flags are not read.
///
/// A null `phSession` is refused with `CKR_ARGUMENTS_BAD`, a library that is
/// not initialized with `CKR_CRYPTOKI_NOT_INITIALIZED`. Only a call that
/// returns `CKR_OK` changes the state or writes the handle.
pub fn C_OpenSession(
    state: &mut StateAccessor,
    slotID: CK_SLOT_ID,
    flags: CK_FLAGS,
    phSession: Option<&mut CK_SESSION_HANDLE>,
) -> (rv: CK_RV)
    requires
        old(state).wf(),
    ensures
        final(state).wf(),
        rv == open_session_status(old(state)@, phSession is Some),
        phSession is None ==> rv == CKR_ARGUMENTS_BAD,
        rv == CKR_OK ==> final(state)@ == old(state)@.open_session(slotID),
        rv != CKR_OK ==> *final(state) == *old(state),
        match phSession {
            Some(handle) => *final(handle) == (if rv == CKR_OK {
                old(state)@.open_session_result()->Ok_0
            } else {
                *handle
            }),
            None => true,
        },
{
    let destination = match phSession {
        Some(destination) => destination,
        None => {
            return CKR_ARGUMENTS_BAD;
        },
    };
    match state.open_session(slotID) {
        Ok(handle) => {
            *destination = handle;
            CKR_OK
        },
        Err(err) => err.into_ck_rv(),
    }
}

/// Closes the session `hSession` and destroys the ephemeral objects it
/// created. A session that is not open is refused with
/// `CKR_SESSION_HANDLE_INVALID`, and nothing changes.
pub fn C_CloseSession(state: &mut StateAccessor, hSession: CK_SESSION_HANDLE) -> (rv: CK_RV)
    requires
        old(state).wf(),
    ensures
        final(state).wf(),
        rv == status_of(old(state)@.session_result(hSession)),
        final(state)@ == old(state)@.close_session(hSession),
        rv != CKR_OK ==> *final(state) == *old(state),
{
    match state.close_session(hSession) {
        Ok(_) => CKR_OK,
        Err(err) => err.into_ck_rv(),
    }
}

} // verus!
