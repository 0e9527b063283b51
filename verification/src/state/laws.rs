//! What holds of the store whatever is done with it: its invariant, that no
//! handle is handed out twice, and what closing a session takes with it.
use vstd::prelude::*;

use crate::cryptoki::bindings::{CK_OBJECT_HANDLE, CK_SESSION_HANDLE};
use crate::error::CryptokiError;
use crate::state::model::{ObjectRecord, StateView};
use crate::state::object::cryptoki_object::ObjectView;

verus! {

/// One operation on the store.
pub ghost enum Operation {
    Initialize,
    Finalize,
    OpenSession { token: u64 },
    CloseSession { session: CK_SESSION_HANDLE },
    Login { session: CK_SESSION_HANDLE },
    Create { session: CK_SESSION_HANDLE, object: ObjectView, ephemeral: bool },
    Destroy { session: CK_SESSION_HANDLE, handle: CK_OBJECT_HANDLE },
}

impl StateView {
    /// The store after one operation; a failed operation changes nothing.
    pub open spec fn step(self, op: Operation) -> StateView {
        match op {
            Operation::Initialize => if self.initialize_result() is Ok {
                self.initialize()
            } else {
                self
            },
            Operation::Finalize => self.finalize(),
            Operation::OpenSession { token } => self.open_session(token),
            Operation::CloseSession { session } => self.close_session(session),
            Operation::Login { session } => self.login(session),
            Operation::Create { session, object, ephemeral } => self.create(
                session,
                object,
                ephemeral,
            ),
            Operation::Destroy { session, handle } => self.destroy(session, handle),
        }
    }

    /// The store after the operations `ops`, in their order.
    pub open spec fn run(self, ops: Seq<Operation>) -> StateView
        decreases ops.len(),
    {
        if ops.len() == 0 {
            self
        } else {
            self.run(ops.drop_last()).step(ops.last())
        }
    }
}

/// The store of a fresh process satisfies the invariant.
pub proof fn lemma_fresh_inv()
    ensures
        StateView::fresh().inv(),
{
}

/// Every operation keeps the invariant, and never lowers the counts of
/// handles handed out.
pub proof fn lemma_step_inv(st: StateView, op: Operation)
    requires
        st.inv(),
    ensures
        st.step(op).inv(),
        st.step(op).sessions_issued >= st.sessions_issued,
        st.step(op).objects_issued >= st.objects_issued,
{
    let next = st.step(op);
    match op {
        Operation::Initialize => {},
        Operation::Finalize => {},
        Operation::OpenSession { token } => {
            if st.open_session_result() is Ok {
                let session = (st.sessions_issued + 1) as u64;
                assert(next.sessions.contains_key(session));
                assert(next.has_sessions());
            }
        },
        Operation::CloseSession { session } => {
            if st.sessions.contains_key(session) {
                assert forall|h: CK_OBJECT_HANDLE| #[trigger]
                    next.objects.contains_key(h)
                        && next.objects[h].ephemeral implies next.sessions.contains_key(
                    next.objects[h].owner,
                ) by {
                    assert(st.objects.contains_key(h));
                }
                if !st.initialized {
                    assert(st.has_sessions());
                }
            }
        },
        Operation::Login { session } => {
            if st.sessions.contains_key(session) {
                assert(st.has_sessions());
            }
        },
        Operation::Create { session, object, ephemeral } => {
            if st.create_result(session) is Ok {
                assert(st.has_sessions());
                assert forall|h: CK_OBJECT_HANDLE| #[trigger]
                    next.objects.contains_key(h)
                        && next.objects[h].ephemeral implies next.sessions.contains_key(
                    next.objects[h].owner,
                ) by {
                    if h != (st.objects_issued + 1) as u64 {
                        assert(st.objects.contains_key(h));
                    }
                }
            }
        },
        Operation::Destroy { session, handle } => {
            if st.resolve(session, handle) is Ok {
                assert forall|h: CK_OBJECT_HANDLE| #[trigger]
                    next.objects.contains_key(h)
                        && next.objects[h].ephemeral implies next.sessions.contains_key(
                    next.objects[h].owner,
                ) by {
                    assert(st.objects.contains_key(h));
                }
            }
        },
    }
}

/// Every sequence of operations keeps the invariant, and never lowers the
/// counts of handles handed out.
pub proof fn lemma_run_inv(st: StateView, ops: Seq<Operation>)
    requires
        st.inv(),
    ensures
        st.run(ops).inv(),
        st.run(ops).sessions_issued >= st.sessions_issued,
        st.run(ops).objects_issued >= st.objects_issued,
    decreases ops.len(),
{
    if ops.len() > 0 {
        lemma_run_inv(st, ops.drop_last());
        lemma_step_inv(st.run(ops.drop_last()), ops.last());
    }
}

/// A created object gets a handle that no live object has, above every
/// handle handed out before, and creating it leaves every other object as
/// it was.
pub proof fn lemma_created_handle_is_fresh(
    st: StateView,
    session: CK_SESSION_HANDLE,
    object: ObjectView,
    ephemeral: bool,
)
    requires
        st.inv(),
        st.create_result(session) is Ok,
    ensures
        !st.objects.contains_key(st.create_result(session)->Ok_0),
        forall|h: CK_OBJECT_HANDLE| #[trigger]
            st.objects.contains_key(h) ==> h < st.create_result(session)->Ok_0,
        forall|h: CK_OBJECT_HANDLE| #[trigger]
            st.objects.contains_key(h) ==> st.create(session, object, ephemeral).objects.contains_key(
                h,
            ) && st.create(session, object, ephemeral).objects[h] == st.objects[h],
        st.create(session, object, ephemeral).resolve(session, st.create_result(session)->Ok_0)
            == Ok::<ObjectRecord, CryptokiError>(ObjectRecord { owner: session, ephemeral, object }),
{
    let handle = st.create_result(session)->Ok_0;
    if st.objects.contains_key(handle) {
        assert(handle <= st.objects_issued);
    }
}

/// No handle is handed out twice: whatever is done to the store after an
/// object was created, also where that object has been destroyed since, a
/// later creation gets a greater handle.
pub proof fn lemma_handles_never_reused(
    st: StateView,
    session: CK_SESSION_HANDLE,
    object: ObjectView,
    ephemeral: bool,
    ops: Seq<Operation>,
    later_session: CK_SESSION_HANDLE,
)
    requires
        st.inv(),
        st.create_result(session) is Ok,
        st.create(session, object, ephemeral).run(ops).create_result(later_session) is Ok,
    ensures
        st.create_result(session)->Ok_0 < st.create(session, object, ephemeral).run(
            ops,
        ).create_result(later_session)->Ok_0,
{
    lemma_step_inv(st, Operation::Create { session, object, ephemeral });
    lemma_run_inv(st.create(session, object, ephemeral), ops);
}

/// Closing a session takes its ephemeral objects with it: afterwards such a
/// handle resolves to `ObjectHandleInvalid`, whichever session asks.
pub proof fn lemma_close_destroys_ephemeral(
    st: StateView,
    session: CK_SESSION_HANDLE,
    handle: CK_OBJECT_HANDLE,
    asking: CK_SESSION_HANDLE,
)
    requires
        st.sessions.contains_key(session),
        st.objects.contains_key(handle),
        st.objects[handle].dies_with(session),
    ensures
        st.close_session(session).resolve(asking, handle) == Err::<ObjectRecord, CryptokiError>(
            CryptokiError::ObjectHandleInvalid,
        ),
{
}

/// Closing a session leaves every persistent object, and every ephemeral
/// object of another session, live and as it was: a session that is still
/// open resolves it as before.
pub proof fn lemma_close_keeps_others(
    st: StateView,
    session: CK_SESSION_HANDLE,
    handle: CK_OBJECT_HANDLE,
    asking: CK_SESSION_HANDLE,
)
    requires
        st.sessions.contains_key(session),
        st.objects.contains_key(handle),
        !st.objects[handle].dies_with(session),
    ensures
        st.close_session(session).objects.contains_key(handle),
        st.close_session(session).objects[handle] == st.objects[handle],
        asking != session ==> st.close_session(session).resolve(asking, handle) == st.resolve(
            asking,
            handle,
        ),
{
}

/// What `create_ephemeral_object` stores dies with its session, and what
/// `create_object` stores does not: closing the session makes the one
/// resolve to `ObjectHandleInvalid` and leaves the other resolvable by every
/// session that is still open.
pub proof fn lemma_session_cascade(
    st: StateView,
    session: CK_SESSION_HANDLE,
    object: ObjectView,
    ephemeral: bool,
    asking: CK_SESSION_HANDLE,
)
    requires
        st.inv(),
        st.create_result(session) is Ok,
    ensures
        ({
            let handle = st.create_result(session)->Ok_0;
            let closed = st.create(session, object, ephemeral).close_session(session);
            if ephemeral {
                closed.resolve(asking, handle) == Err::<ObjectRecord, CryptokiError>(
                    CryptokiError::ObjectHandleInvalid,
                )
            } else if asking != session && st.sessions.contains_key(asking) {
                closed.resolve(asking, handle) == Ok::<ObjectRecord, CryptokiError>(
                    ObjectRecord { owner: session, ephemeral: false, object },
                )
            } else {
                closed.objects.contains_key(handle)
            }
        }),
{
}

} // verus!
