//! The store as contracts see it: which sessions are open, which objects are
//! live, and what each operation makes of them.
use vstd::prelude::*;

use crate::cryptoki::bindings::{CK_OBJECT_HANDLE, CK_SESSION_HANDLE};
use crate::error::CryptokiError;
use crate::state::object::cryptoki_object::{ObjectClass, ObjectView};

verus! {

/// An open session.
#[verifier::ext_equal]
pub ghost struct SessionView {
    /// The token (slot) the session operates on.
    pub token: u64,
    /// Whether the session has logged in.
    pub authenticated: bool,
    /// The private half of the session's key pair.
    pub private_key: CK_OBJECT_HANDLE,
    /// The public half of the session's key pair.
    pub public_key: CK_OBJECT_HANDLE,
}

/// A live object, with the session that created it and its lifetime.
#[verifier::ext_equal]
pub ghost struct ObjectRecord {
    /// The session that created the object.
    pub owner: CK_SESSION_HANDLE,
    /// Whether the object dies with its session.
    pub ephemeral: bool,
    /// The object itself.
    pub object: ObjectView,
}

impl ObjectRecord {
    /// The object is destroyed when `session` closes.
    pub open spec fn dies_with(self, session: CK_SESSION_HANDLE) -> bool {
        self.ephemeral && self.owner == session
    }

    /// `session` may use the object: a persistent object is open to every
    /// session, an ephemeral one to the session that created it.
    pub open spec fn usable_by(self, session: CK_SESSION_HANDLE) -> bool {
        !self.ephemeral || self.owner == session
    }
}

/// The whole store.
#[verifier::ext_equal]
pub ghost struct StateView {
    /// Whether the library is initialized.
    pub initialized: bool,
    /// The open sessions, by handle.
    pub sessions: Map<CK_SESSION_HANDLE, SessionView>,
    /// The live objects, by handle.
    pub objects: Map<CK_OBJECT_HANDLE, ObjectRecord>,
    /// How many session handles have been handed out so far.
    pub sessions_issued: nat,
    /// How many object handles have been handed out so far.
    pub objects_issued: nat,
}

impl StateView {
    /// The store of a process that has not initialized the library.
    pub open spec fn fresh() -> StateView {
        StateView {
            initialized: false,
            sessions: Map::empty(),
            objects: Map::empty(),
            sessions_issued: 0,
            objects_issued: 0,
        }
    }

    /// Some session is open.
    pub open spec fn has_sessions(self) -> bool {
        exists|h: CK_SESSION_HANDLE| self.sessions.contains_key(h)
    }

    /// What holds of every store that the operations can reach: handles are
    /// positive and were handed out, nothing is live before initialization,
    /// and an ephemeral object belongs to an open session.
    pub open spec fn inv(self) -> bool {
        &&& self.sessions_issued <= u64::MAX
        &&& self.objects_issued <= u64::MAX
        &&& forall|h: CK_SESSION_HANDLE| #[trigger]
            self.sessions.contains_key(h) ==> 1 <= h <= self.sessions_issued
        &&& forall|h: CK_OBJECT_HANDLE| #[trigger]
            self.objects.contains_key(h) ==> 1 <= h <= self.objects_issued
        &&& !self.initialized ==> !self.has_sessions()
        &&& !self.initialized ==> forall|h: CK_OBJECT_HANDLE| !self.objects.contains_key(h)
        &&& forall|h: CK_OBJECT_HANDLE| #[trigger]
            self.objects.contains_key(h) && self.objects[h].ephemeral
                ==> self.sessions.contains_key(self.objects[h].owner)
    }

    /// Initialization fails on a library that is initialized already.
    pub open spec fn initialize_result(self) -> Result<(), CryptokiError> {
        if self.initialized {
            Err(CryptokiError::AlreadyInitialized)
        } else {
            Ok(())
        }
    }

    /// The store after initialization.
    pub open spec fn initialize(self) -> StateView {
        StateView { initialized: true, ..self }
    }

    /// Finalization fails before initialization and while sessions are open.
    pub open spec fn finalize_result(self) -> Result<(), CryptokiError> {
        if !self.initialized {
            Err(CryptokiError::NotInitialized)
        } else if self.has_sessions() {
            Err(CryptokiError::SessionExists)
        } else {
            Ok(())
        }
    }

    /// The store after finalization: every object is discarded; the counts
    /// of handles handed out stay, so that no handle comes back.
    pub open spec fn finalize(self) -> StateView {
        if self.finalize_result() is Ok {
            StateView {
                initialized: false,
                sessions: Map::empty(),
                objects: Map::empty(),
                ..self
            }
        } else {
            self
        }
    }

    /// Opening a session needs an initialized library, one free session
    /// handle and two free object handles for the session's key pair. The
    /// new handle is one more than the number handed out so far.
    pub open spec fn open_session_result(self) -> Result<CK_SESSION_HANDLE, CryptokiError> {
        if !self.initialized {
            Err(CryptokiError::NotInitialized)
        } else if self.sessions_issued + 1 > u64::MAX || self.objects_issued + 2 > u64::MAX {
            Err(CryptokiError::HostMemory)
        } else {
            Ok((self.sessions_issued + 1) as u64)
        }
    }

    /// The store after a session on `token` was opened: the session is
    /// there, not logged in, with a blank private and a blank public key
    /// object of its own.
    pub open spec fn open_session(self, token: u64) -> StateView {
        if self.open_session_result() is Ok {
            let session = (self.sessions_issued + 1) as u64;
            let private_key = (self.objects_issued + 1) as u64;
            let public_key = (self.objects_issued + 2) as u64;
            StateView {
                sessions: self.sessions.insert(
                    session,
                    SessionView { token, authenticated: false, private_key, public_key },
                ),
                objects: self.objects.insert(
                    private_key,
                    ObjectRecord {
                        owner: session,
                        ephemeral: true,
                        object: ObjectView::blank(ObjectClass::PrivateKey),
                    },
                ).insert(
                    public_key,
                    ObjectRecord {
                        owner: session,
                        ephemeral: true,
                        object: ObjectView::blank(ObjectClass::PublicKey),
                    },
                ),
                sessions_issued: self.sessions_issued + 1,
                objects_issued: self.objects_issued + 2,
                ..self
            }
        } else {
            self
        }
    }

    /// An operation on a session fails where the session is not open.
    pub open spec fn session_result(self, session: CK_SESSION_HANDLE) -> Result<
        (),
        CryptokiError,
    > {
        if self.sessions.contains_key(session) {
            Ok(())
        } else {
            Err(CryptokiError::SessionHandleInvalid)
        }
    }

    /// The store after `session` was closed: the session is gone, and with
    /// it every ephemeral object it created.
    pub open spec fn close_session(self, session: CK_SESSION_HANDLE) -> StateView {
        if self.sessions.contains_key(session) {
            StateView {
                sessions: self.sessions.remove(session),
                objects: Map::new(
                    |h: CK_OBJECT_HANDLE|
                        self.objects.contains_key(h) && !self.objects[h].dies_with(session),
                    |h: CK_OBJECT_HANDLE| self.objects[h],
                ),
                ..self
            }
        } else {
            self
        }
    }

    /// The store after `session` logged in.
    pub open spec fn login(self, session: CK_SESSION_HANDLE) -> StateView {
        if self.sessions.contains_key(session) {
            StateView {
                sessions: self.sessions.insert(
                    session,
                    SessionView { authenticated: true, ..self.sessions[session] },
                ),
                ..self
            }
        } else {
            self
        }
    }

    /// Creating an object needs an open session and a free object handle.
    /// The new handle is one more than the number handed out so far.
    pub open spec fn create_result(self, session: CK_SESSION_HANDLE) -> Result<
        CK_OBJECT_HANDLE,
        CryptokiError,
    > {
        if !self.sessions.contains_key(session) {
            Err(CryptokiError::SessionHandleInvalid)
        } else if self.objects_issued + 1 > u64::MAX {
            Err(CryptokiError::HostMemory)
        } else {
            Ok((self.objects_issued + 1) as u64)
        }
    }

    /// The store after `session` created `object`.
    pub open spec fn create(
        self,
        session: CK_SESSION_HANDLE,
        object: ObjectView,
        ephemeral: bool,
    ) -> StateView {
        if self.create_result(session) is Ok {
            StateView {
                objects: self.objects.insert(
                    (self.objects_issued + 1) as u64,
                    ObjectRecord { owner: session, ephemeral, object },
                ),
                objects_issued: self.objects_issued + 1,
                ..self
            }
        } else {
            self
        }
    }

    /// What `handle` resolves to when `session` asks: the object, where the
    /// handle is live and the session is open and may use it.
    pub open spec fn resolve(self, session: CK_SESSION_HANDLE, handle: CK_OBJECT_HANDLE) -> Result<
        ObjectRecord,
        CryptokiError,
    > {
        if !self.objects.contains_key(handle) {
            Err(CryptokiError::ObjectHandleInvalid)
        } else if !self.sessions.contains_key(session) {
            Err(CryptokiError::SessionHandleInvalid)
        } else if !self.objects[handle].usable_by(session) {
            Err(CryptokiError::SessionHandleInvalid)
        } else {
            Ok(self.objects[handle])
        }
    }

    /// Destroying an object fails where resolving it fails.
    pub open spec fn destroy_result(
        self,
        session: CK_SESSION_HANDLE,
        handle: CK_OBJECT_HANDLE,
    ) -> Result<(), CryptokiError> {
        match self.resolve(session, handle) {
            Ok(_) => Ok(()),
            Err(e) => Err(e),
        }
    }

    /// The store after `session` destroyed the object `handle`.
    pub open spec fn destroy(
        self,
        session: CK_SESSION_HANDLE,
        handle: CK_OBJECT_HANDLE,
    ) -> StateView {
        if self.resolve(session, handle) is Ok {
            StateView { objects: self.objects.remove(handle), ..self }
        } else {
            self
        }
    }

    /// The key pair of `session`: the private handle, then the public one.
    pub open spec fn keypair_result(self, session: CK_SESSION_HANDLE) -> Result<
        (CK_OBJECT_HANDLE, CK_OBJECT_HANDLE),
        CryptokiError,
    > {
        if self.sessions.contains_key(session) {
            Ok((self.sessions[session].private_key, self.sessions[session].public_key))
        } else {
            Err(CryptokiError::SessionHandleInvalid)
        }
    }
}

} // verus!
