//! Per-connection gesture state, keyed by connection identity.
//!
//! The store is a mapping with unique keys: each connection id maps to at
//! most one [`ConnectionState`] at a time. Entries appear when a
//! connection opens (or first speaks), are rewritten by [`ConnectionStore::apply`],
//! and disappear when the connection closes.

use vstd::prelude::*;
use crate::actions::{ActionRequest, ConnectionState, GameAction, RequestKind, spec_apply};
use crate::text::str_eq;

verus! {

/// Executable mirror of [`spec_apply`]: one gesture-state transition.
pub fn apply_transition(st: ConnectionState, req: ActionRequest, threshold: u64) -> (r: Option<
    (ConnectionState, GameAction, bool),
>)
    ensures
        match spec_apply(st, req, threshold) {
            None => r is None,
            Some(out) => r == Some((out.state, out.action, out.send_discrete)),
        },
{
    match req.kind {
        RequestKind::PeakLeft => if req.pressure > threshold {
            Some(
                (
                    ConnectionState {
                        current_movement: Some(GameAction::MoveLeft),
                        movement_pressure: req.pressure,
                        ..st
                    },
                    GameAction::MoveLeft,
                    true,
                ),
            )
        } else {
            None
        },
        RequestKind::PeakRight => if req.pressure > threshold {
            Some(
                (
                    ConnectionState {
                        current_movement: Some(GameAction::MoveRight),
                        movement_pressure: req.pressure,
                        ..st
                    },
                    GameAction::MoveRight,
                    true,
                ),
            )
        } else {
            None
        },
        RequestKind::PeakShoot => if req.pressure > threshold {
            Some(
                (
                    ConnectionState { is_shooting: true, shoot_pressure: req.pressure, ..st },
                    GameAction::Shoot,
                    true,
                ),
            )
        } else {
            None
        },
        RequestKind::Stop => Some((ConnectionState::default(), GameAction::Idle, true)),
        RequestKind::StopMovement => Some(
            (
                ConnectionState { current_movement: None, movement_pressure: 0, ..st },
                GameAction::Idle,
                true,
            ),
        ),
        RequestKind::StopShooting => Some(
            (
                ConnectionState { is_shooting: false, shoot_pressure: 0, ..st },
                GameAction::Idle,
                false,
            ),
        ),
        RequestKind::Other => None,
    }
}

/// The mapping an association list denotes; later entries win, though the
/// store keeps its keys unique so the question never arises.
pub open spec fn entries_map(s: Seq<(String, ConnectionState)>) -> Map<Seq<char>, ConnectionState>
    decreases s.len(),
{
    if s.len() == 0 {
        Map::empty()
    } else {
        entries_map(s.drop_last()).insert(s.last().0@, s.last().1)
    }
}

/// No two entries share a key.
pub open spec fn unique_keys(s: Seq<(String, ConnectionState)>) -> bool {
    forall|i: int, j: int| 0 <= i < j < s.len() ==> s[i].0@ != s[j].0@
}

proof fn lemma_entries_map_dom(s: Seq<(String, ConnectionState)>, k: Seq<char>)
    ensures
        entries_map(s).dom().contains(k) <==> exists|i: int| 0 <= i < s.len() && s[i].0@ == k,
    decreases s.len(),
{
    if s.len() > 0 {
        lemma_entries_map_dom(s.drop_last(), k);
        if s.last().0@ == k {
            assert(s[s.len() - 1].0@ == k);
        } else if entries_map(s).dom().contains(k) {
            let i = choose|i: int| 0 <= i < s.drop_last().len() && s.drop_last()[i].0@ == k;
            assert(s[i].0@ == k);
        } else {
            assert forall|i: int| 0 <= i < s.len() implies s[i].0@ != k by {
                if i < s.len() - 1 {
                    assert(s.drop_last()[i].0@ == s[i].0@);
                }
            }
        }
    }
}

proof fn lemma_entries_map_index(s: Seq<(String, ConnectionState)>, i: int)
    requires
        unique_keys(s),
        0 <= i < s.len(),
    ensures
        entries_map(s).dom().contains(s[i].0@),
        entries_map(s)[s[i].0@] == s[i].1,
    decreases s.len(),
{
    if i == s.len() - 1 {
    } else {
        assert(s.drop_last()[i] == s[i]);
        lemma_entries_map_index(s.drop_last(), i);
        assert(s[i].0@ != s.last().0@);
    }
}

proof fn lemma_entries_map_absent(s: Seq<(String, ConnectionState)>, k: Seq<char>)
    requires
        forall|i: int| 0 <= i < s.len() ==> s[i].0@ != k,
    ensures
        !entries_map(s).dom().contains(k),
{
    lemma_entries_map_dom(s, k);
}

proof fn lemma_entries_map_push(s: Seq<(String, ConnectionState)>, p: (String, ConnectionState))
    requires
        forall|i: int| 0 <= i < s.len() ==> s[i].0@ != p.0@,
    ensures
        entries_map(s.push(p)) == entries_map(s).insert(p.0@, p.1),
        unique_keys(s) ==> unique_keys(s.push(p)),
{
    assert(s.push(p).drop_last() =~= s);
    assert(s.push(p).last() == p);
    if unique_keys(s) {
        assert forall|i: int, j: int|
            0 <= i < j < s.push(p).len() implies s.push(p)[i].0@ != s.push(p)[j].0@ by {
            if j < s.len() {
                assert(s.push(p)[i] == s[i] && s.push(p)[j] == s[j]);
            } else {
                assert(s.push(p)[i] == s[i] && s.push(p)[j] == p);
            }
        }
    }
}

proof fn lemma_entries_map_update(s: Seq<(String, ConnectionState)>, i: int, st: ConnectionState)
    requires
        unique_keys(s),
        0 <= i < s.len(),
    ensures
        ({
            let t = s.update(i, (s[i].0, st));
            &&& entries_map(t) =~= entries_map(s).insert(s[i].0@, st)
            &&& unique_keys(t)
        }),
    decreases s.len(),
{
    let t = s.update(i, (s[i].0, st));
    assert forall|x: int, y: int| 0 <= x < y < t.len() implies t[x].0@ != t[y].0@ by {
        assert(t[x].0@ == s[x].0@ && t[y].0@ == s[y].0@);
    }
    if i == s.len() - 1 {
        assert(t.drop_last() =~= s.drop_last());
        assert(t.last() == (s[i].0, st));
        assert(entries_map(t) =~= entries_map(s).insert(s[i].0@, st));
    } else {
        assert(t.drop_last() =~= s.drop_last().update(i, (s.drop_last()[i].0, st)));
        lemma_entries_map_update(s.drop_last(), i, st);
        assert(t.last() == s.last());
        assert(s[i].0@ != s.last().0@);
        assert(entries_map(t) =~= entries_map(s).insert(s[i].0@, st));
    }
}

proof fn lemma_entries_map_remove(s: Seq<(String, ConnectionState)>, i: int)
    requires
        unique_keys(s),
        0 <= i < s.len(),
    ensures
        entries_map(s.remove(i)) =~= entries_map(s).remove(s[i].0@),
        unique_keys(s.remove(i)),
    decreases s.len(),
{
    let t = s.remove(i);
    assert forall|x: int, y: int| 0 <= x < y < t.len() implies t[x].0@ != t[y].0@ by {
        let sx: int = if x < i {
            x
        } else {
            x + 1
        };
        let sy: int = if y < i {
            y
        } else {
            y + 1
        };
        assert(t[x].0@ == s[sx].0@ && t[y].0@ == s[sy].0@);
    }
    if i == s.len() - 1 {
        assert(t =~= s.drop_last());
        assert forall|j: int| 0 <= j < s.drop_last().len() implies s.drop_last()[j].0@ != s[i].0@
            by {
            assert(s.drop_last()[j].0@ == s[j].0@);
        }
        lemma_entries_map_absent(s.drop_last(), s[i].0@);
        assert(entries_map(t) =~= entries_map(s).remove(s[i].0@));
    } else {
        assert(t.drop_last() =~= s.drop_last().remove(i));
        assert(s.drop_last()[i] == s[i]);
        lemma_entries_map_remove(s.drop_last(), i);
        assert(t.last() == s.last());
        assert(s[i].0@ != s.last().0@);
        assert(entries_map(t) =~= entries_map(s).remove(s[i].0@));
    }
}

/// The per-connection state store: a mapping from connection identity to
/// [`ConnectionState`], with unique keys.
#[derive(Debug)]
pub struct ConnectionStore {
    entries: Vec<(String, ConnectionState)>,
}

impl View for ConnectionStore {
    type V = Map<Seq<char>, ConnectionState>;

    closed spec fn view(&self) -> Map<Seq<char>, ConnectionState> {
        entries_map(self.entries@)
    }
}

impl ConnectionStore {
    /// Each connection id maps to at most one entry.
    pub closed spec fn wf(&self) -> bool {
        unique_keys(self.entries@)
    }

    /// An empty store.
    pub fn new() -> (s: ConnectionStore)
        ensures
            s.wf(),
            s@ == Map::<Seq<char>, ConnectionState>::empty(),
    {
        ConnectionStore { entries: Vec::new() }
    }

    fn index_of(&self, id: &str) -> (r: Option<usize>)
        ensures
            match r {
                Some(i) => i < self.entries@.len() && self.entries@[i as int].0@ == id@,
                None => forall|i: int| 0 <= i < self.entries@.len() ==> self.entries@[i].0@ != id@,
            },
    {
        let n = self.entries.len();
        let mut i: usize = 0;
        while i < n
            invariant
                n == self.entries@.len(),
                i <= n,
                forall|j: int| 0 <= j < i ==> self.entries@[j].0@ != id@,
            decreases n - i,
        {
            if str_eq(self.entries[i].0.as_str(), id) {
                return Some(i);
            }
            i = i + 1;
        }
        None
    }

    /// The state recorded for `id`, if any.
    pub fn get(&self, id: &str) -> (r: Option<ConnectionState>)
        requires
            self.wf(),
        ensures
            r == if self@.dom().contains(id@) {
                Some(self@[id@])
            } else {
                None::<ConnectionState>
            },
    {
        match self.index_of(id) {
            Some(i) => {
                proof {
                    lemma_entries_map_index(self.entries@, i as int);
                }
                Some(self.entries[i].1)
            },
            None => {
                proof {
                    lemma_entries_map_absent(self.entries@, id@);
                }
                None
            },
        }
    }

    /// Registers `id` with the default state if it is not yet present;
    /// called when a connection opens.
    pub fn upsert_default(&mut self, id: &str)
        requires
            old(self).wf(),
        ensures
            final(self).wf(),
            final(self)@ == if old(self)@.dom().contains(id@) {
                old(self)@
            } else {
                old(self)@.insert(id@, ConnectionState::spec_default())
            },
    {
        match self.index_of(id) {
            Some(_) => {
                proof {
                    lemma_entries_map_dom(self.entries@, id@);
                }
            },
            None => {
                proof {
                    lemma_entries_map_absent(self.entries@, id@);
                }
                let p = (id.to_owned(), ConnectionState::default());
                proof {
                    lemma_entries_map_push(self.entries@, p);
                }
                self.entries.push(p);
            },
        }
    }

    /// Drops the entry for `id`; called when the connection closes.
    /// Removing an id that is not present leaves the store as it was, so
    /// close handling is idempotent.
    pub fn remove(&mut self, id: &str)
        requires
            old(self).wf(),
        ensures
            final(self).wf(),
            final(self)@ == old(self)@.remove(id@),
    {
        match self.index_of(id) {
            Some(i) => {
                proof {
                    lemma_entries_map_remove(self.entries@, i as int);
                }
                let _ = self.entries.remove(i);
            },
            None => {
                proof {
                    lemma_entries_map_absent(self.entries@, id@);
                    assert(entries_map(self.entries@) =~= entries_map(self.entries@).remove(id@));
                }
            },
        }
    }

    /// The single state-transition step of the bridge, per [`spec_apply`]:
    /// looks up (inserting the default when absent) the state of `id`,
    /// applies the request under the given threshold, and returns the
    /// post-mutation snapshot together with the commanded action and
    /// whether a discrete event is owed. `None` means the message is
    /// discarded with no state change.
    pub fn apply(&mut self, id: &str, req: ActionRequest, threshold: u64) -> (r: Option<
        (ConnectionState, GameAction, bool),
    >)
        requires
            old(self).wf(),
        ensures
            final(self).wf(),
            ({
                let st0 = if old(self)@.dom().contains(id@) {
                    old(self)@[id@]
                } else {
                    ConnectionState::spec_default()
                };
                match spec_apply(st0, req, threshold) {
                    None => r is None && final(self)@ == old(self)@.insert(id@, st0),
                    Some(out) => {
                        &&& r == Some((out.state, out.action, out.send_discrete))
                        &&& final(self)@ == old(self)@.insert(id@, out.state)
                    },
                }
            }),
    {
        let ghost st0 = if old(self)@.dom().contains(id@) {
            old(self)@[id@]
        } else {
            ConnectionState::spec_default()
        };
        let i: usize = match self.index_of(id) {
            Some(i) => {
                proof {
                    lemma_entries_map_index(self.entries@, i as int);
                }
                i
            },
            None => {
                proof {
                    lemma_entries_map_absent(self.entries@, id@);
                }
                let n = self.entries.len();
                let p = (id.to_owned(), ConnectionState::default());
                proof {
                    lemma_entries_map_push(self.entries@, p);
                }
                self.entries.push(p);
                n
            },
        };
        proof {
            assert(self.entries@[i as int].1 == st0);
            assert(self@ =~= old(self)@.insert(id@, st0));
        }
        let st = self.entries[i].1;
        match apply_transition(st, req, threshold) {
            Some((st1, act, disc)) => {
                let key = self.entries[i].0.clone();
                proof {
                    lemma_entries_map_update(self.entries@, i as int, st1);
                }
                self.entries.set(i, (key, st1));
                proof {
                    assert(self@ =~= old(self)@.insert(id@, st1));
                }
                Some((st1, act, disc))
            },
            None => None,
        }
    }
}

/// Closing a connection twice is the same as closing it once: removing an
/// id from the store a second time changes nothing.
pub proof fn lemma_remove_idempotent(m: Map<Seq<char>, ConnectionState>, id: Seq<char>)
    ensures
        m.remove(id).remove(id) == m.remove(id),
{
    assert(m.remove(id).remove(id) =~= m.remove(id));
}

} // verus!
