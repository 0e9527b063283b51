//! Object entry points: destroying an object.
use vstd::prelude::*;

use crate::cryptoki::bindings::{CKR_OK, CK_OBJECT_HANDLE, CK_RV, CK_SESSION_HANDLE};
use crate::cryptoki::general_purpose::status_of;
use crate::state::StateAccessor;

verus! {

/// Destroys the object `hObject`, which the session `hSession` must be able
/// to resolve. A handle that does not resolve is refused with the status of
/// the failed resolution, and nothing changes.
pub fn C_DestroyObject(
    state: &mut StateAccessor,
    hSession: CK_SESSION_HANDLE,
    hObject: CK_OBJECT_HANDLE,
) -> (rv: CK_RV)
    requires
        old(state).wf(),
    ensures
        final(state).wf(),
        rv == status_of(old(state)@.destroy_result(hSession, hObject)),
        final(state)@ == old(state)@.destroy(hSession, hObject),
        rv != CKR_OK ==> *final(state) == *old(state),
{
    match state.destroy_object(hSession, hObject) {
        Ok(_) => CKR_OK,
        Err(err) => err.into_ck_rv(),
    }
}

} // verus!
