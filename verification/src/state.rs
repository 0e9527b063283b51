//! The session and object store: it opens and closes sessions, hands out
//! handles, and resolves a handle to the object it names.
use vstd::prelude::*;

use crate::cryptoki::bindings::{CK_OBJECT_HANDLE, CK_SESSION_HANDLE};
use crate::error::CryptokiError;
use crate::state::model::{ObjectRecord, StateView};
use crate::state::object::cryptoki_object::{CryptokiObject, ObjectClass};
use crate::state::store::{
    ascending_objects, ascending_sessions, handles_of, holds_session, lemma_handles_distinct,
    lemma_object_at, lemma_objects_push, lemma_objects_remove, lemma_session_at,
    lemma_sessions_push, lemma_sessions_remove, lemma_sessions_update, object_index, objects_of,
    session_index, sessions_of, Session, StoredObject,
};

pub mod laws;
pub mod model;
pub mod object;
mod store;

verus! {

/// The state of the token: whether the library is initialized, the open
/// sessions and the live objects. It owns every object; callers hold handles.
pub struct StateAccessor {
    initialized: bool,
    sessions: Vec<Session>,
    objects: Vec<StoredObject>,
    sessions_issued: u64,
    objects_issued: u64,
}

impl View for StateAccessor {
    type V = StateView;

    closed spec fn view(&self) -> StateView {
        StateView {
            initialized: self.initialized,
            sessions: sessions_of(self.sessions@),
            objects: objects_of(self.objects@),
            sessions_issued: self.sessions_issued as nat,
            objects_issued: self.objects_issued as nat,
        }
    }
}

impl StateAccessor {
    /// The store is sound: handles ascend in the order they were handed out,
    /// none is above the count handed out, every stored object is well
    /// formed, nothing is live before initialization, and every ephemeral
    /// object belongs to an open session.
    pub closed spec fn wf(&self) -> bool {
        &&& ascending_sessions(self.sessions@)
        &&& ascending_objects(self.objects@)
        &&& forall|i: int|
            0 <= i < self.sessions@.len() ==> 1 <= (#[trigger] self.sessions@[i]).handle
                <= self.sessions_issued
        &&& forall|i: int|
            0 <= i < self.objects@.len() ==> 1 <= (#[trigger] self.objects@[i]).handle
                <= self.objects_issued
        &&& forall|i: int| 0 <= i < self.objects@.len() ==> (#[trigger] self.objects@[i]).object.wf()
        &&& !self.initialized ==> self.sessions@.len() == 0 && self.objects@.len() == 0
        &&& forall|i: int|
            0 <= i < self.objects@.len() && (#[trigger] self.objects@[i]).ephemeral
                ==> holds_session(self.sessions@, self.objects@[i].owner)
    }

    /// The handles of the live objects, in the order in which the store
    /// keeps them.
    pub closed spec fn live_handles(&self) -> Seq<CK_OBJECT_HANDLE> {
        handles_of(self.objects@)
    }

    /// A sound store satisfies the invariant of its model.
    pub proof fn lemma_view_inv(&self)
        requires
            self.wf(),
        ensures
            self@.inv(),
    {
        let st = self@;
        assert forall|h: CK_SESSION_HANDLE| #[trigger]
            st.sessions.contains_key(h) implies 1 <= h <= st.sessions_issued by {
            let i = session_index(self.sessions@, h);
            assert(self.sessions@[i].handle == h);
        }
        assert forall|h: CK_OBJECT_HANDLE| #[trigger]
            st.objects.contains_key(h) implies 1 <= h <= st.objects_issued by {
            let i = object_index(self.objects@, h);
            assert(self.objects@[i].handle == h);
        }
        assert forall|h: CK_OBJECT_HANDLE| #[trigger]
            st.objects.contains_key(h) && st.objects[h].ephemeral implies st.sessions.contains_key(
            st.objects[h].owner,
        ) by {
            let i = object_index(self.objects@, h);
            assert(self.objects@[i].handle == h);
            lemma_object_at(self.objects@, i);
        }
    }

    /// No two live objects share a handle: the handles the store keeps do
    /// not repeat, and they are exactly the handles that resolve.
    pub proof fn lemma_live_handles_distinct(&self)
        requires
            self.wf(),
        ensures
            self.live_handles().no_duplicates(),
            self.live_handles().to_set() == self@.objects.dom(),
    {
        lemma_handles_distinct(self.objects@);
    }

    /// The store of a process that has not initialized the library.
    pub fn new() -> (state: StateAccessor)
        ensures
            state.wf(),
            state@ == StateView::fresh(),
    {
        let state = StateAccessor {
            initialized: false,
            sessions: Vec::new(),
            objects: Vec::new(),
            sessions_issued: 0,
            objects_issued: 0,
        };
        assert(state@.sessions =~= Map::empty());
        assert(state@.objects =~= Map::empty());
        state
    }

    /// Whether the library is initialized.
    pub fn is_initialized(&self) -> (b: bool)
        ensures
            b == self@.initialized,
    {
        self.initialized
    }

    /// Initializes the library. A second initialization without a
    /// finalization in between fails with `AlreadyInitialized` and changes
    /// nothing.
    pub fn initialize_state(&mut self) -> (result: Result<(), CryptokiError>)
        requires
            old(self).wf(),
        ensures
            final(self).wf(),
            result == old(self)@.initialize_result(),
            result is Ok ==> final(self)@ == old(self)@.initialize(),
            result is Err ==> *final(self) == *old(self),
    {
        if self.initialized {
            return Err(CryptokiError::AlreadyInitialized);
        }
        self.initialized = true;
        Ok(())
    }

    /// Finalizes the library and discards every object. Fails with
    /// `NotInitialized` before initialization and with `SessionExists` while
    /// a session is open, and then changes nothing.
    pub fn finalize(&mut self) -> (result: Result<(), CryptokiError>)
        requires
            old(self).wf(),
        ensures
            final(self).wf(),
            result == old(self)@.finalize_result(),
            final(self)@ == old(self)@.finalize(),
            result is Err ==> *final(self) == *old(self),
    {
        if !self.initialized {
            return Err(CryptokiError::NotInitialized);
        }
        if self.sessions.len() > 0 {
            proof {
                lemma_session_at(self.sessions@, 0);
                assert(self@.sessions.contains_key(self.sessions@[0].handle));
                assert(self@.has_sessions());
            }
            return Err(CryptokiError::SessionExists);
        }
        assert(!self@.has_sessions()) by {
            if self@.has_sessions() {
                let h = choose|h: CK_SESSION_HANDLE| self@.sessions.contains_key(h);
                assert(holds_session(self.sessions@, h));
            }
        }
        self.initialized = false;
        self.objects = Vec::new();
        assert(self@.sessions =~= Map::empty());
        assert(self@.objects =~= Map::empty());
        Ok(())
    }

    /// The place of the session `session`, if it is open.
    fn find_session(&self, session: CK_SESSION_HANDLE) -> (place: Option<usize>)
        requires
            self.wf(),
        ensures
            match place {
                Some(i) => i < self.sessions@.len() && self.sessions@[i as int].handle == session
                    && self@.sessions.contains_key(session) && self@.sessions[session]
                    == self.sessions@[i as int]@,
                None => !self@.sessions.contains_key(session),
            },
    {
        let mut i: usize = 0;
        while i < self.sessions.len()
            invariant
                i <= self.sessions@.len(),
                self.wf(),
                forall|j: int| 0 <= j < i ==> self.sessions@[j].handle != session,
            decreases self.sessions@.len() - i,
        {
            if self.sessions[i].handle == session {
                proof {
                    lemma_session_at(self.sessions@, i as int);
                }
                return Some(i);
            }
            i += 1;
        }
        None
    }

    /// The place of the object `handle`, if it is live.
    fn find_object(&self, handle: CK_OBJECT_HANDLE) -> (place: Option<usize>)
        requires
            self.wf(),
        ensures
            match place {
                Some(i) => i < self.objects@.len() && self.objects@[i as int].handle == handle
                    && self@.objects.contains_key(handle) && self@.objects[handle]
                    == self.objects@[i as int]@,
                None => !self@.objects.contains_key(handle),
            },
    {
        let mut i: usize = 0;
        while i < self.objects.len()
            invariant
                i <= self.objects@.len(),
                self.wf(),
                forall|j: int| 0 <= j < i ==> self.objects@[j].handle != handle,
            decreases self.objects@.len() - i,
        {
            if self.objects[i].handle == handle {
                proof {
                    lemma_object_at(self.objects@, i as int);
                }
                return Some(i);
            }
            i += 1;
        }
        None
    }

    /// Stores `object` under the next handle, for `session`.
    fn insert_object(
        &mut self,
        session: CK_SESSION_HANDLE,
        ephemeral: bool,
        object: CryptokiObject,
    ) -> (handle: CK_OBJECT_HANDLE)
        requires
            old(self).wf(),
            object.wf(),
            old(self)@.objects_issued + 1 <= u64::MAX,
            ephemeral ==> old(self)@.sessions.contains_key(session),
            old(self)@.initialized,
        ensures
            final(self).wf(),
            handle == old(self)@.objects_issued + 1,
            final(self)@ == (StateView {
                objects: old(self)@.objects.insert(
                    handle,
                    ObjectRecord { owner: session, ephemeral, object: object@ },
                ),
                objects_issued: old(self)@.objects_issued + 1,
                ..old(self)@
            }),
    {
        let handle = self.objects_issued + 1;
        let stored = StoredObject { handle, owner: session, ephemeral, object };
        proof {
            lemma_objects_push(self.objects@, stored);
        }
        self.objects.push(stored);
        self.objects_issued = handle;
        handle
    }

    /// Opens a session on `token` and gives it a key pair of its own: a
    /// blank private and a blank public key object, both ephemeral.
    pub fn open_session(&mut self, token: u64) -> (result: Result<CK_SESSION_HANDLE, CryptokiError>)
        requires
            old(self).wf(),
        ensures
            final(self).wf(),
            result == old(self)@.open_session_result(),
            final(self)@ == old(self)@.open_session(token),
            result is Err ==> *final(self) == *old(self),
    {
        if !self.initialized {
            return Err(CryptokiError::NotInitialized);
        }
        if self.sessions_issued == u64::MAX || self.objects_issued >= u64::MAX - 1 {
            return Err(CryptokiError::HostMemory);
        }
        let handle = self.sessions_issued + 1;
        let private_key = self.objects_issued + 1;
        let public_key = self.objects_issued + 2;
        let session = Session { handle, token, authenticated: false, private_key, public_key };
        proof {
            lemma_sessions_push(self.sessions@, session);
        }
        self.sessions.push(session);
        self.sessions_issued = handle;
        assert(self.wf()) by {
            assert forall|i: int|
                0 <= i < self.objects@.len() && (
                #[trigger] self.objects@[i]).ephemeral implies holds_session(
                self.sessions@,
                self.objects@[i].owner,
            ) by {
                let j = session_index(old(self).sessions@, self.objects@[i].owner);
                assert(self.sessions@[j].handle == self.objects@[i].owner);
            }
        }
        assert(self@.sessions.contains_key(handle));
        self.insert_object(handle, true, CryptokiObject::new(ObjectClass::PrivateKey));
        self.insert_object(handle, true, CryptokiObject::new(ObjectClass::PublicKey));
        Ok(handle)
    }

    /// Closes `session` and destroys every ephemeral object it created;
    /// persistent objects stay. Fails with `SessionHandleInvalid` where the
    /// session is not open, and then changes nothing.
    pub fn close_session(&mut self, session: CK_SESSION_HANDLE) -> (result: Result<
        (),
        CryptokiError,
    >)
        requires
            old(self).wf(),
        ensures
            final(self).wf(),
            result == old(self)@.session_result(session),
            final(self)@ == old(self)@.close_session(session),
            result is Err ==> *final(self) == *old(self),
    {
        let place = match self.find_session(session) {
            Some(i) => i,
            None => {
                return Err(CryptokiError::SessionHandleInvalid);
            },
        };
        let ghost before = self@;
        let ghost stored = self.objects@;
        let mut i: usize = 0;
        while i < self.objects.len()
            invariant
                i <= self.objects@.len(),
                before == old(self)@,
                before.objects == objects_of(stored),
                self.initialized == old(self).initialized,
                self.sessions == old(self).sessions,
                self.sessions_issued == old(self).sessions_issued,
                self.objects_issued == old(self).objects_issued,
                ascending_objects(self.objects@),
                forall|j: int|
                    0 <= j < self.objects@.len() ==> 1 <= (#[trigger] self.objects@[j]).handle
                        <= self.objects_issued,
                forall|j: int|
                    0 <= j < self.objects@.len() ==> (#[trigger] self.objects@[j]).object.wf(),
                forall|j: int|
                    0 <= j < self.objects@.len() && (#[trigger] self.objects@[j]).ephemeral
                        ==> holds_session(self.sessions@, self.objects@[j].owner),
                forall|h: CK_OBJECT_HANDLE| #[trigger]
                    objects_of(self.objects@).contains_key(h) ==> before.objects.contains_key(h)
                        && objects_of(self.objects@)[h] == before.objects[h],
                forall|h: CK_OBJECT_HANDLE| #[trigger]
                    before.objects.contains_key(h) && !before.objects[h].dies_with(session)
                        ==> objects_of(self.objects@).contains_key(h),
                forall|j: int| 0 <= j < i ==> !(#[trigger] self.objects@[j])@.dies_with(session),
            decreases self.objects@.len() - i,
        {
            if self.objects[i].ephemeral && self.objects[i].owner == session {
                proof {
                    lemma_objects_remove(self.objects@, i as int);
                    lemma_object_at(self.objects@, i as int);
                }
                let ghost cur = self.objects@;
                self.objects.remove(i);
                proof {
                    assert forall|j: int| 0 <= j < self.objects@.len() implies 1 <= (
                    #[trigger] self.objects@[j]).handle <= self.objects_issued
                        && self.objects@[j].object.wf() && (self.objects@[j].ephemeral
                        ==> holds_session(self.sessions@, self.objects@[j].owner)) by {
                        let j0 = if j < i { j } else { j + 1 };
                        assert(self.objects@[j] == cur[j0]);
                    }
                    assert forall|j: int| 0 <= j < i implies !(
                    #[trigger] self.objects@[j])@.dies_with(session) by {
                        assert(self.objects@[j] == cur[j]);
                    }
                }
            } else {
                i += 1;
            }
        }
        proof {
            lemma_sessions_remove(self.sessions@, place as int);
            assert forall|h: CK_OBJECT_HANDLE| #[trigger]
                objects_of(self.objects@).contains_key(h) implies !before.objects[h].dies_with(
                session,
            ) by {
                let j = object_index(self.objects@, h);
                lemma_object_at(self.objects@, j);
            }
            assert(objects_of(self.objects@) =~= before.close_session(session).objects);
        }
        self.sessions.remove(place);
        proof {
            assert forall|j: int|
                0 <= j < self.objects@.len() && (
                #[trigger] self.objects@[j]).ephemeral implies holds_session(
                self.sessions@,
                self.objects@[j].owner,
            ) by {
                let owner = self.objects@[j].owner;
                assert(owner != session);
                assert(sessions_of(old(self).sessions@).contains_key(owner));
                assert(sessions_of(self.sessions@).contains_key(owner));
            }
            assert forall|j: int| 0 <= j < self.sessions@.len() implies 1 <= (
            #[trigger] self.sessions@[j]).handle <= self.sessions_issued by {
                let j0 = if j < place { j } else { j + 1 };
                assert(self.sessions@[j] == old(self).sessions@[j0]);
            }
        }
        Ok(())
    }

    /// Marks `session` as logged in. Fails with `SessionHandleInvalid` where
    /// the session is not open.
    pub fn login(&mut self, session: CK_SESSION_HANDLE) -> (result: Result<(), CryptokiError>)
        requires
            old(self).wf(),
        ensures
            final(self).wf(),
            result == old(self)@.session_result(session),
            final(self)@ == old(self)@.login(session),
            result is Err ==> *final(self) == *old(self),
    {
        let place = match self.find_session(session) {
            Some(i) => i,
            None => {
                return Err(CryptokiError::SessionHandleInvalid);
            },
        };
        let entry = &self.sessions[place];
        let updated = Session {
            handle: entry.handle,
            token: entry.token,
            authenticated: true,
            private_key: entry.private_key,
            public_key: entry.public_key,
        };
        proof {
            lemma_sessions_update(self.sessions@, place as int, updated);
        }
        self.sessions.set(place, updated);
        proof {
            assert forall|j: int|
                0 <= j < self.objects@.len() && (
                #[trigger] self.objects@[j]).ephemeral implies holds_session(
                self.sessions@,
                self.objects@[j].owner,
            ) by {
                let owner = self.objects@[j].owner;
                assert(sessions_of(old(self).sessions@).contains_key(owner));
                assert(sessions_of(self.sessions@).contains_key(owner));
            }
        }
        Ok(())
    }

    /// Whether `session` has logged in. Fails with `SessionHandleInvalid`
    /// where the session is not open.
    pub fn is_authenticated(&self, session: CK_SESSION_HANDLE) -> (result: Result<
        bool,
        CryptokiError,
    >)
        requires
            self.wf(),
        ensures
            match result {
                Ok(b) => self@.sessions.contains_key(session) && b
                    == self@.sessions[session].authenticated,
                Err(e) => e == CryptokiError::SessionHandleInvalid && !self@.sessions.contains_key(
                    session,
                ),
            },
    {
        match self.find_session(session) {
            Some(i) => Ok(self.sessions[i].authenticated),
            None => Err(CryptokiError::SessionHandleInvalid),
        }
    }

    /// Stores `object` as a persistent object under a fresh handle: it
    /// outlives `session`, and every open session may use it.
    pub fn create_object(&mut self, session: CK_SESSION_HANDLE, object: CryptokiObject) -> (result:
        Result<CK_OBJECT_HANDLE, CryptokiError>)
        requires
            old(self).wf(),
            object.wf(),
        ensures
            final(self).wf(),
            result == old(self)@.create_result(session),
            final(self)@ == old(self)@.create(session, object@, false),
            result is Err ==> *final(self) == *old(self),
            result matches Ok(handle) ==> !old(self)@.objects.contains_key(handle),
    {
        self.create(session, object, false)
    }

    /// Stores `object` as an ephemeral object under a fresh handle: only
    /// `session` may use it, and it is destroyed when `session` closes.
    pub fn create_ephemeral_object(
        &mut self,
        session: CK_SESSION_HANDLE,
        object: CryptokiObject,
    ) -> (result: Result<CK_OBJECT_HANDLE, CryptokiError>)
        requires
            old(self).wf(),
            object.wf(),
        ensures
            final(self).wf(),
            result == old(self)@.create_result(session),
            final(self)@ == old(self)@.create(session, object@, true),
            result is Err ==> *final(self) == *old(self),
            result matches Ok(handle) ==> !old(self)@.objects.contains_key(handle),
    {
        self.create(session, object, true)
    }

    fn create(&mut self, session: CK_SESSION_HANDLE, object: CryptokiObject, ephemeral: bool) -> (result:
        Result<CK_OBJECT_HANDLE, CryptokiError>)
        requires
            old(self).wf(),
            object.wf(),
        ensures
            final(self).wf(),
            result == old(self)@.create_result(session),
            final(self)@ == old(self)@.create(session, object@, ephemeral),
            result is Err ==> *final(self) == *old(self),
            result matches Ok(handle) ==> !old(self)@.objects.contains_key(handle),
    {
        if self.find_session(session).is_none() {
            return Err(CryptokiError::SessionHandleInvalid);
        }
        if self.objects_issued == u64::MAX {
            return Err(CryptokiError::HostMemory);
        }
        proof {
            self.lemma_view_inv();
        }
        Ok(self.insert_object(session, ephemeral, object))
    }

    /// Resolves `handle` for `session`. Fails with `ObjectHandleInvalid`
    /// where the handle names no live object, and with `SessionHandleInvalid`
    /// where the session is not open or may not use the object.
    pub fn get_object(&self, session: CK_SESSION_HANDLE, handle: CK_OBJECT_HANDLE) -> (result:
        Result<&CryptokiObject, CryptokiError>)
        requires
            self.wf(),
        ensures
            match result {
                Ok(object) => object.wf() && self@.resolve(session, handle) is Ok
                    && self@.resolve(session, handle)->Ok_0.object == object@,
                Err(e) => self@.resolve(session, handle) is Err
                    && self@.resolve(session, handle)->Err_0 == e,
            },
    {
        let place = match self.find_object(handle) {
            Some(i) => i,
            None => {
                return Err(CryptokiError::ObjectHandleInvalid);
            },
        };
        if self.find_session(session).is_none() {
            return Err(CryptokiError::SessionHandleInvalid);
        }
        let stored = &self.objects[place];
        if stored.ephemeral && stored.owner != session {
            return Err(CryptokiError::SessionHandleInvalid);
        }
        Ok(&stored.object)
    }

    /// Destroys the object `handle`, which `session` must be able to
    /// resolve; fails as `get_object` does, and then changes nothing.
    pub fn destroy_object(&mut self, session: CK_SESSION_HANDLE, handle: CK_OBJECT_HANDLE) -> (result:
        Result<(), CryptokiError>)
        requires
            old(self).wf(),
        ensures
            final(self).wf(),
            result == old(self)@.destroy_result(session, handle),
            final(self)@ == old(self)@.destroy(session, handle),
            result is Err ==> *final(self) == *old(self),
    {
        let place = match self.find_object(handle) {
            Some(i) => i,
            None => {
                return Err(CryptokiError::ObjectHandleInvalid);
            },
        };
        if self.find_session(session).is_none() {
            return Err(CryptokiError::SessionHandleInvalid);
        }
        if self.objects[place].ephemeral && self.objects[place].owner != session {
            return Err(CryptokiError::SessionHandleInvalid);
        }
        proof {
            lemma_objects_remove(self.objects@, place as int);
        }
        self.objects.remove(place);
        proof {
            assert forall|j: int| 0 <= j < self.objects@.len() implies 1 <= (
            #[trigger] self.objects@[j]).handle <= self.objects_issued
                && self.objects@[j].object.wf() && (self.objects@[j].ephemeral ==> holds_session(
                self.sessions@,
                self.objects@[j].owner,
            )) by {
                let j0 = if j < place { j } else { j + 1 };
                assert(self.objects@[j] == old(self).objects@[j0]);
            }
        }
        Ok(())
    }

    /// The key pair of `session`, the private handle first. Fails with
    /// `SessionHandleInvalid` where the session is not open.
    pub fn get_keypair(&self, session: CK_SESSION_HANDLE) -> (result: Result<
        (CK_OBJECT_HANDLE, CK_OBJECT_HANDLE),
        CryptokiError,
    >)
        requires
            self.wf(),
        ensures
            result == self@.keypair_result(session),
    {
        match self.find_session(session) {
            Some(i) => Ok((self.sessions[i].private_key, self.sessions[i].public_key)),
            None => Err(CryptokiError::SessionHandleInvalid),
        }
    }
}

} // verus!
