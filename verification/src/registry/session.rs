//! State that the tools of a mount share.
use crate::text_map::TextMap;
use vstd::prelude::*;

verus! {

/// Byte values by key.
pub type SessionState = Map<Seq<char>, Seq<u8>>;

/// The states of all sessions.
pub struct SessionStore {
    states: Vec<TextMap<Vec<u8>>>,
}

impl View for SessionStore {
    type V = Seq<SessionState>;

    closed spec fn view(&self) -> Seq<SessionState> {
        self.states@.map_values(|s: TextMap<Vec<u8>>| state_view(s))
    }
}

/// What a state holds.
spec fn state_view(s: TextMap<Vec<u8>>) -> SessionState {
    s@.map_values(|v: Vec<u8>| v@)
}

/// Per-mount state shared across all tool invocations: a handle to a state in a store.
/// Clones share one state.
#[derive(Clone, Copy, Debug, PartialEq, Eq, Structural)]
pub struct Session {
    id: usize,
}

/// The states after the value of a key of one of them was set.
pub open spec fn with_value(
    states: Seq<SessionState>,
    id: int,
    key: Seq<char>,
    value: Seq<u8>,
) -> Seq<SessionState> {
    states.update(id, states[id].insert(key, value))
}

/// The states after one of them forgot a key.
pub open spec fn without_value(states: Seq<SessionState>, id: int, key: Seq<char>) -> Seq<
    SessionState,
> {
    states.update(id, states[id].remove(key))
}

impl SessionStore {
    /// The states are maps.
    pub closed spec fn wf(&self) -> bool {
        forall|i: int| 0 <= i < self.states@.len() ==> (#[trigger] self.states@[i]).wf()
    }

    /// Whether the state of a session is in this store.
    pub open spec fn has_session(&self, s: Session) -> bool {
        0 <= s.state_id() < self@.len()
    }

    /// A store without sessions.
    pub fn new() -> (r: Self)
        ensures
            r.wf(),
            r@ == Seq::<SessionState>::empty(),
    {
        let r = SessionStore { states: Vec::new() };
        proof {
            assert(r@ =~= Seq::<SessionState>::empty());
        }
        r
    }
}

impl Default for SessionStore {
    fn default() -> (r: Self)
        ensures
            r.wf(),
            r@ == Seq::<SessionState>::empty(),
    {
        SessionStore::new()
    }
}

impl Session {
    /// Which state of a store is that of the session.
    pub closed spec fn state_id(&self) -> int {
        self.id as int
    }

    /// A session that holds nothing.
    pub fn new(store: &mut SessionStore) -> (r: Self)
        requires
            old(store).wf(),
        ensures
            final(store).wf(),
            r.state_id() == old(store)@.len(),
            final(store)@ == old(store)@.push(Map::empty()),
    {
        let id: usize = store.states.len();
        store.states.push(TextMap::new());
        proof {
            assert(state_view(store.states@[id as int]) =~= Map::empty());
            assert(store@ =~= old(store)@.push(Map::empty()));
        }
        Session { id }
    }

    /// A copy of the value of a key.
    pub fn get(&self, store: &SessionStore, key: &str) -> (r: Option<Vec<u8>>)
        requires
            store.wf(),
            store.has_session(*self),
        ensures
            r is Some <==> store@[self.state_id()].contains_key(key@),
            r is Some ==> r->0@ == store@[self.state_id()][key@],
    {
        match store.states[self.id].get(key) {
            None => None,
            Some(v) => {
                let c = v.clone();
                proof {
                    assert(c@ =~= v@);
                }
                Some(c)
            },
        }
    }

    /// Sets the value of a key.
    pub fn set(&self, store: &mut SessionStore, key: String, value: Vec<u8>)
        requires
            old(store).wf(),
            old(store).has_session(*self),
        ensures
            final(store).wf(),
            final(store)@ == with_value(old(store)@, self.state_id(), key@, value@),
    {
        store.states[self.id].insert(key, value);
        proof {
            assert(state_view(store.states@[self.id as int]) =~= old(
                store,
            )@[self.state_id()].insert(key@, value@));
            assert(store@ =~= with_value(old(store)@, self.state_id(), key@, value@));
        }
    }

    /// Forgets a key.
    pub fn remove(&self, store: &mut SessionStore, key: &str)
        requires
            old(store).wf(),
            old(store).has_session(*self),
        ensures
            final(store).wf(),
            final(store)@ == without_value(old(store)@, self.state_id(), key@),
    {
        store.states[self.id].remove(key);
        proof {
            assert(state_view(store.states@[self.id as int]) =~= old(
                store,
            )@[self.state_id()].remove(key@));
            assert(store@ =~= without_value(old(store)@, self.state_id(), key@));
        }
    }
}

/// A value that was set is what the session and every clone of it give back, until it is
/// removed; other keys and other sessions are not touched by either.
pub proof fn clones_share_one_state(
    states: Seq<SessionState>,
    session: Session,
    clone: Session,
    key: Seq<char>,
    value: Seq<u8>,
    other: Seq<char>,
    stranger: Session,
)
    requires
        0 <= session.state_id() < states.len(),
        clone == session,
        0 <= stranger.state_id() < states.len(),
        stranger.state_id() != session.state_id(),
        other != key,
    ensures
        ({
            let set = with_value(states, session.state_id(), key, value);
            let removed = without_value(states, session.state_id(), key);
            let id = clone.state_id();
            &&& set[session.state_id()].contains_key(key) && set[session.state_id()][key] == value
            &&& set[id].contains_key(key) && set[id][key] == value
            &&& !removed[id].contains_key(key)
            &&& set[id].contains_key(other) <==> states[id].contains_key(other)
            &&& removed[id].contains_key(other) <==> states[id].contains_key(other)
            &&& states[id].contains_key(other) ==> set[id][other] == states[id][other]
                && removed[id][other] == states[id][other]
            &&& set[stranger.state_id()] == states[stranger.state_id()]
            &&& removed[stranger.state_id()] == states[stranger.state_id()]
        }),
{
}

/// To remove a key undoes that it was set: where the session had no value for it, every key
/// of every session is afterwards as it was before. To remove a key without a value changes
/// nothing.
pub proof fn remove_undoes_set(
    states: Seq<SessionState>,
    session: Session,
    key: Seq<char>,
    value: Seq<u8>,
)
    requires
        0 <= session.state_id() < states.len(),
        !states[session.state_id()].contains_key(key),
    ensures
        without_value(
            with_value(states, session.state_id(), key, value),
            session.state_id(),
            key,
        ) == states,
        without_value(states, session.state_id(), key) == states,
{
    let id = session.state_id();
    assert(states[id].insert(key, value).remove(key) =~= states[id]);
    assert(states[id].remove(key) =~= states[id]);
    assert(without_value(with_value(states, id, key, value), id, key) =~= states);
    assert(without_value(states, id, key) =~= states);
}

} // verus!
