//! How the store keeps its sessions and objects: two vectors in ascending
//! order of handle, and the maps that they stand for.
use vstd::prelude::*;

use crate::cryptoki::bindings::{CK_OBJECT_HANDLE, CK_SESSION_HANDLE};
use crate::state::model::{ObjectRecord, SessionView};
use crate::state::object::cryptoki_object::CryptokiObject;

verus! {

/// An open session as the store keeps it.
pub struct Session {
    pub handle: CK_SESSION_HANDLE,
    pub token: u64,
    pub authenticated: bool,
    pub private_key: CK_OBJECT_HANDLE,
    pub public_key: CK_OBJECT_HANDLE,
}

impl View for Session {
    type V = SessionView;

    open spec fn view(&self) -> SessionView {
        SessionView {
            token: self.token,
            authenticated: self.authenticated,
            private_key: self.private_key,
            public_key: self.public_key,
        }
    }
}

/// A live object as the store keeps it.
pub struct StoredObject {
    pub handle: CK_OBJECT_HANDLE,
    pub owner: CK_SESSION_HANDLE,
    pub ephemeral: bool,
    pub object: CryptokiObject,
}

impl View for StoredObject {
    type V = ObjectRecord;

    open spec fn view(&self) -> ObjectRecord {
        ObjectRecord { owner: self.owner, ephemeral: self.ephemeral, object: self.object@ }
    }
}

/// The handles of `v` ascend strictly.
pub open spec fn ascending_sessions(v: Seq<Session>) -> bool {
    forall|i: int, j: int| 0 <= i < j < v.len() ==> v[i].handle < v[j].handle
}

/// Some session of `v` has the handle `h`.
pub open spec fn holds_session(v: Seq<Session>, h: CK_SESSION_HANDLE) -> bool {
    exists|i: int| 0 <= i < v.len() && v[i].handle == h
}

/// The place in `v` of the session with handle `h`, where there is one.
pub open spec fn session_index(v: Seq<Session>, h: CK_SESSION_HANDLE) -> int {
    choose|i: int| 0 <= i < v.len() && v[i].handle == h
}

/// The sessions of `v`, by handle.
pub open spec fn sessions_of(v: Seq<Session>) -> Map<CK_SESSION_HANDLE, SessionView> {
    Map::new(
        |h: CK_SESSION_HANDLE| holds_session(v, h),
        |h: CK_SESSION_HANDLE| v[session_index(v, h)]@,
    )
}

/// The handles of `v` ascend strictly.
pub open spec fn ascending_objects(v: Seq<StoredObject>) -> bool {
    forall|i: int, j: int| 0 <= i < j < v.len() ==> v[i].handle < v[j].handle
}

/// Some object of `v` has the handle `h`.
pub open spec fn holds_object(v: Seq<StoredObject>, h: CK_OBJECT_HANDLE) -> bool {
    exists|i: int| 0 <= i < v.len() && v[i].handle == h
}

/// The place in `v` of the object with handle `h`, where there is one.
pub open spec fn object_index(v: Seq<StoredObject>, h: CK_OBJECT_HANDLE) -> int {
    choose|i: int| 0 <= i < v.len() && v[i].handle == h
}

/// The objects of `v`, by handle.
pub open spec fn objects_of(v: Seq<StoredObject>) -> Map<CK_OBJECT_HANDLE, ObjectRecord> {
    Map::new(
        |h: CK_OBJECT_HANDLE| holds_object(v, h),
        |h: CK_OBJECT_HANDLE| v[object_index(v, h)]@,
    )
}

/// The handles of `v`, in the order in which the store keeps them.
pub open spec fn handles_of(v: Seq<StoredObject>) -> Seq<CK_OBJECT_HANDLE> {
    Seq::new(v.len(), |i: int| v[i].handle)
}

/// The session at place `i` is the one its handle maps to.
pub proof fn lemma_session_at(v: Seq<Session>, i: int)
    requires
        ascending_sessions(v),
        0 <= i < v.len(),
    ensures
        sessions_of(v).contains_key(v[i].handle),
        sessions_of(v)[v[i].handle] == v[i]@,
        session_index(v, v[i].handle) == i,
{
    let h = v[i].handle;
    assert(holds_session(v, h));
    let c = session_index(v, h);
    if c < i {
        assert(v[c].handle < v[i].handle);
    } else if i < c {
        assert(v[i].handle < v[c].handle);
    }
}

/// A session with a handle above all others goes to the end.
pub proof fn lemma_sessions_push(v: Seq<Session>, s: Session)
    requires
        ascending_sessions(v),
        forall|i: int| 0 <= i < v.len() ==> v[i].handle < s.handle,
    ensures
        ascending_sessions(v.push(s)),
        sessions_of(v.push(s)) == sessions_of(v).insert(s.handle, s@),
{
    let w = v.push(s);
    assert(ascending_sessions(w));
    assert forall|h: CK_SESSION_HANDLE|
        sessions_of(w).contains_key(h) == sessions_of(v).insert(s.handle, s@).contains_key(
            h,
        ) by {
        if holds_session(w, h) {
            let i = session_index(w, h);
            if i < v.len() {
                assert(v[i].handle == h);
            }
        }
        if holds_session(v, h) {
            let i = session_index(v, h);
            assert(w[i].handle == h);
        }
        if h == s.handle {
            assert(w[v.len() as int].handle == h);
        }
    }
    assert forall|h: CK_SESSION_HANDLE| sessions_of(w).contains_key(h) implies sessions_of(w)[h]
        == sessions_of(v).insert(s.handle, s@)[h] by {
        let i = session_index(w, h);
        lemma_session_at(w, i);
        if i < v.len() {
            assert(v[i] == w[i]);
            lemma_session_at(v, i);
        }
    }
    assert(sessions_of(w) =~= sessions_of(v).insert(s.handle, s@));
}

/// Taking out the session at place `i` takes its handle out of the map.
pub proof fn lemma_sessions_remove(v: Seq<Session>, i: int)
    requires
        ascending_sessions(v),
        0 <= i < v.len(),
    ensures
        ascending_sessions(v.remove(i)),
        sessions_of(v.remove(i)) == sessions_of(v).remove(v[i].handle),
{
    let w = v.remove(i);
    assert(ascending_sessions(w)) by {
        assert forall|a: int, b: int| 0 <= a < b < w.len() implies w[a].handle < w[b].handle by {
            let a0 = if a < i { a } else { a + 1 };
            let b0 = if b < i { b } else { b + 1 };
            assert(w[a] == v[a0] && w[b] == v[b0]);
        }
    }
    assert forall|h: CK_SESSION_HANDLE|
        sessions_of(w).contains_key(h) == sessions_of(v).remove(v[i].handle).contains_key(
            h,
        ) by {
        if holds_session(w, h) {
            let a = session_index(w, h);
            let a0 = if a < i { a } else { a + 1 };
            assert(w[a] == v[a0]);
            assert(v[a0].handle == h);
            lemma_session_at(v, a0);
            lemma_session_at(v, i);
        }
        if holds_session(v, h) && h != v[i].handle {
            let a0 = session_index(v, h);
            let a = if a0 < i { a0 } else { a0 - 1 };
            assert(w[a] == v[a0]);
        }
    }
    assert forall|h: CK_SESSION_HANDLE| sessions_of(w).contains_key(h) implies sessions_of(w)[h]
        == sessions_of(v).remove(v[i].handle)[h] by {
        let a = session_index(w, h);
        let a0 = if a < i { a } else { a + 1 };
        assert(w[a] == v[a0]);
        lemma_session_at(w, a);
        lemma_session_at(v, a0);
    }
    assert(sessions_of(w) =~= sessions_of(v).remove(v[i].handle));
}

/// Replacing the session at place `i` by one with the same handle replaces
/// what the handle maps to.
pub proof fn lemma_sessions_update(v: Seq<Session>, i: int, s: Session)
    requires
        ascending_sessions(v),
        0 <= i < v.len(),
        s.handle == v[i].handle,
    ensures
        ascending_sessions(v.update(i, s)),
        sessions_of(v.update(i, s)) == sessions_of(v).insert(s.handle, s@),
{
    let w = v.update(i, s);
    assert(ascending_sessions(w)) by {
        assert forall|a: int, b: int| 0 <= a < b < w.len() implies w[a].handle < w[b].handle by {
            assert(w[a].handle == v[a].handle && w[b].handle == v[b].handle);
        }
    }
    assert forall|h: CK_SESSION_HANDLE|
        sessions_of(w).contains_key(h) == sessions_of(v).insert(s.handle, s@).contains_key(
            h,
        ) by {
        if holds_session(w, h) {
            let a = session_index(w, h);
            assert(v[a].handle == h);
        }
        if holds_session(v, h) {
            let a = session_index(v, h);
            assert(w[a].handle == h);
        }
        if h == s.handle {
            assert(w[i].handle == h);
        }
    }
    assert forall|h: CK_SESSION_HANDLE| sessions_of(w).contains_key(h) implies sessions_of(w)[h]
        == sessions_of(v).insert(s.handle, s@)[h] by {
        let a = session_index(w, h);
        lemma_session_at(w, a);
        if a != i {
            assert(w[a] == v[a]);
            lemma_session_at(v, a);
            lemma_session_at(v, i);
        }
    }
    assert(sessions_of(w) =~= sessions_of(v).insert(s.handle, s@));
}

/// The object at place `i` is the one its handle maps to.
pub proof fn lemma_object_at(v: Seq<StoredObject>, i: int)
    requires
        ascending_objects(v),
        0 <= i < v.len(),
    ensures
        objects_of(v).contains_key(v[i].handle),
        objects_of(v)[v[i].handle] == v[i]@,
        object_index(v, v[i].handle) == i,
{
    let h = v[i].handle;
    assert(holds_object(v, h));
    let c = object_index(v, h);
    if c < i {
        assert(v[c].handle < v[i].handle);
    } else if i < c {
        assert(v[i].handle < v[c].handle);
    }
}

/// An object with a handle above all others goes to the end.
pub proof fn lemma_objects_push(v: Seq<StoredObject>, e: StoredObject)
    requires
        ascending_objects(v),
        forall|i: int| 0 <= i < v.len() ==> v[i].handle < e.handle,
    ensures
        ascending_objects(v.push(e)),
        objects_of(v.push(e)) == objects_of(v).insert(e.handle, e@),
{
    let w = v.push(e);
    assert(ascending_objects(w));
    assert forall|h: CK_OBJECT_HANDLE|
        objects_of(w).contains_key(h) == objects_of(v).insert(e.handle, e@).contains_key(h) by {
        if holds_object(w, h) {
            let i = object_index(w, h);
            if i < v.len() {
                assert(v[i].handle == h);
            }
        }
        if holds_object(v, h) {
            let i = object_index(v, h);
            assert(w[i].handle == h);
        }
        if h == e.handle {
            assert(w[v.len() as int].handle == h);
        }
    }
    assert forall|h: CK_OBJECT_HANDLE| objects_of(w).contains_key(h) implies objects_of(w)[h]
        == objects_of(v).insert(e.handle, e@)[h] by {
        let i = object_index(w, h);
        lemma_object_at(w, i);
        if i < v.len() {
            assert(v[i] == w[i]);
            lemma_object_at(v, i);
        }
    }
    assert(objects_of(w) =~= objects_of(v).insert(e.handle, e@));
}

/// Taking out the object at place `i` takes its handle out of the map.
pub proof fn lemma_objects_remove(v: Seq<StoredObject>, i: int)
    requires
        ascending_objects(v),
        0 <= i < v.len(),
    ensures
        ascending_objects(v.remove(i)),
        objects_of(v.remove(i)) == objects_of(v).remove(v[i].handle),
{
    let w = v.remove(i);
    assert(ascending_objects(w)) by {
        assert forall|a: int, b: int| 0 <= a < b < w.len() implies w[a].handle < w[b].handle by {
            let a0 = if a < i { a } else { a + 1 };
            let b0 = if b < i { b } else { b + 1 };
            assert(w[a] == v[a0] && w[b] == v[b0]);
        }
    }
    assert forall|h: CK_OBJECT_HANDLE|
        objects_of(w).contains_key(h) == objects_of(v).remove(v[i].handle).contains_key(h) by {
        if holds_object(w, h) {
            let a = object_index(w, h);
            let a0 = if a < i { a } else { a + 1 };
            assert(w[a] == v[a0]);
            assert(v[a0].handle == h);
            lemma_object_at(v, a0);
            lemma_object_at(v, i);
        }
        if holds_object(v, h) && h != v[i].handle {
            let a0 = object_index(v, h);
            let a = if a0 < i { a0 } else { a0 - 1 };
            assert(w[a] == v[a0]);
        }
    }
    assert forall|h: CK_OBJECT_HANDLE| objects_of(w).contains_key(h) implies objects_of(w)[h]
        == objects_of(v).remove(v[i].handle)[h] by {
        let a = object_index(w, h);
        let a0 = if a < i { a } else { a + 1 };
        assert(w[a] == v[a0]);
        lemma_object_at(w, a);
        lemma_object_at(v, a0);
    }
    assert(objects_of(w) =~= objects_of(v).remove(v[i].handle));
}

/// Handles that ascend do not repeat, and they are the handles of the map.
pub proof fn lemma_handles_distinct(v: Seq<StoredObject>)
    requires
        ascending_objects(v),
    ensures
        handles_of(v).no_duplicates(),
        handles_of(v).to_set() == objects_of(v).dom(),
{
    let hs = handles_of(v);
    assert forall|i: int, j: int| 0 <= i < hs.len() && 0 <= j < hs.len() && i != j implies hs[i]
        != hs[j] by {
        if i < j {
            assert(v[i].handle < v[j].handle);
        } else {
            assert(v[j].handle < v[i].handle);
        }
    }
    assert forall|h: CK_OBJECT_HANDLE| hs.to_set().contains(h) == objects_of(v).dom().contains(
        h,
    ) by {
        if hs.contains(h) {
            let i = choose|i: int| 0 <= i < hs.len() && hs[i] == h;
            assert(v[i].handle == h);
        }
        if holds_object(v, h) {
            let i = object_index(v, h);
            assert(hs[i] == h);
        }
    }
    assert(hs.to_set() =~= objects_of(v).dom());
}

} // verus!
