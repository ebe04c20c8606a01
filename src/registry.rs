//! The process-wide record of which room each connected player is bound
//! to, used to move a player out of a stale room when they join another.
use vstd::prelude::*;
use crate::game::{find_key, has_key, index_of_key, keys_unique, put_pair, set_pair};

verus! {

/// The room that `player` is bound to in `bindings` (pairs of player id and
/// room id), if any.
pub open spec fn bound_room(bindings: Seq<(String, String)>, player: Seq<char>) -> Option<String> {
    if has_key(bindings, player) {
        Some(bindings[index_of_key(bindings, player)].1)
    } else {
        None
    }
}

proof fn lemma_index_of_key(bindings: Seq<(String, String)>, k: int)
    requires
        keys_unique(bindings),
        0 <= k < bindings.len(),
    ensures
        has_key(bindings, bindings[k].0@),
        index_of_key(bindings, bindings[k].0@) == k,
{
    assert(has_key(bindings, bindings[k].0@));
    let c = index_of_key(bindings, bindings[k].0@);
    assert(bindings[c].0@ == bindings[k].0@);
}

proof fn lemma_put_pair_bound(bindings: Seq<(String, String)>, key: String, value: String, x: Seq<char>)
    requires
        keys_unique(bindings),
        keys_unique(put_pair(bindings, key, value)),
    ensures
        bound_room(put_pair(bindings, key, value), x) == if x == key@ {
            Some(value)
        } else {
            bound_room(bindings, x)
        },
{
    let after = put_pair(bindings, key, value);
    if has_key(bindings, key@) {
        let k = index_of_key(bindings, key@);
        assert(bindings[k].0@ == key@);
        assert(after[k] == (key, value));
        lemma_index_of_key(after, k);
        if x != key@ {
            if has_key(bindings, x) {
                let j = index_of_key(bindings, x);
                assert(bindings[j].0@ == x);
                assert(after[j] == bindings[j]);
                lemma_index_of_key(after, j);
            } else {
                assert forall|i: int| 0 <= i < after.len() implies (#[trigger] after[i]).0@ != x by {
                    if i != k {
                        assert(after[i] == bindings[i]);
                    }
                }
            }
        }
    } else {
        let n = bindings.len() as int;
        assert(after[n] == (key, value));
        lemma_index_of_key(after, n);
        if x != key@ {
            if has_key(bindings, x) {
                let j = index_of_key(bindings, x);
                assert(bindings[j].0@ == x);
                assert(after[j] == bindings[j]);
                lemma_index_of_key(after, j);
            } else {
                assert forall|i: int| 0 <= i < after.len() implies (#[trigger] after[i]).0@ != x by {
                    if i != n {
                        assert(after[i] == bindings[i]);
                    }
                }
            }
        }
    }
}

/// Which room each player is bound to.
pub struct ConnectionRegistry {
    pub bindings: Vec<(String, String)>,
}

impl ConnectionRegistry {
    /// Each player is bound to at most one room.
    pub open spec fn wf(&self) -> bool {
        keys_unique(self.bindings@)
    }

    /// The room `player` is bound to, if any.
    pub open spec fn room_of(&self, player: Seq<char>) -> Option<String> {
        bound_room(self.bindings@, player)
    }

    /// An empty registry.
    pub fn new() -> (r: ConnectionRegistry)
        ensures
            r.wf(),
            forall|p: Seq<char>| #[trigger] r.room_of(p) is None,
    {
        ConnectionRegistry { bindings: Vec::new() }
    }

    /// Binds `player_id` to `room_id` and returns the room it was bound to
    /// before, if any. Other players' bindings are untouched.
    pub fn register_connection(&mut self, player_id: String, room_id: String) -> (r: Option<String>)
        requires
            old(self).wf(),
        ensures
            final(self).wf(),
            r == old(self).room_of(player_id@),
            final(self).room_of(player_id@) == Some(room_id),
            forall|p: Seq<char>| p != player_id@ ==> #[trigger] final(self).room_of(p) == old(
                self,
            ).room_of(p),
    {
        let previous = self.get_connection(&player_id);
        let ghost before = self.bindings@;
        set_pair(&mut self.bindings, player_id, room_id);
        proof {
            assert forall|p: Seq<char>| #[trigger] bound_room(self.bindings@, p) == if p == player_id@ {
                Some(room_id)
            } else {
                bound_room(before, p)
            } by {
                lemma_put_pair_bound(before, player_id, room_id, p);
            }
        }
        previous
    }

    /// Unbinds `player_id`. Other players' bindings are untouched.
    pub fn remove_connection(&mut self, player_id: &String)
        requires
            old(self).wf(),
        ensures
            final(self).wf(),
            final(self).room_of(player_id@) is None,
            forall|p: Seq<char>| p != player_id@ ==> #[trigger] final(self).room_of(p) == old(
                self,
            ).room_of(p),
    {
        match find_key(&self.bindings, player_id) {
            Some(k) => {
                let ghost before = self.bindings@;
                self.bindings.remove(k);
                proof {
                    let after = self.bindings@;
                    assert forall|a: int, b: int|
                        0 <= a < after.len() && 0 <= b < after.len() && a != b implies (#[trigger] after[a]).0@
                        != (#[trigger] after[b]).0@ by {
                        let a2 = if a < k { a } else { a + 1 };
                        let b2 = if b < k { b } else { b + 1 };
                        assert(after[a] == before[a2] && after[b] == before[b2]);
                    }
                    assert forall|i: int| 0 <= i < after.len() implies (#[trigger] after[i]).0@ != player_id@ by {
                        let i2 = if i < k { i } else { i + 1 };
                        assert(after[i] == before[i2]);
                    }
                    assert forall|p: Seq<char>| p != player_id@ implies #[trigger] bound_room(after, p)
                        == bound_room(before, p) by {
                        if has_key(before, p) {
                            let j = index_of_key(before, p);
                            assert(before[j].0@ == p);
                            assert(j != k);
                            let j2 = if j < k { j } else { j - 1 };
                            assert(after[j2] == before[j]);
                            lemma_index_of_key(after, j2);
                        } else {
                            assert forall|i: int| 0 <= i < after.len() implies (#[trigger] after[i]).0@ != p by {
                                let i2 = if i < k { i } else { i + 1 };
                                assert(after[i] == before[i2]);
                            }
                        }
                    }
                }
            },
            None => {},
        }
    }

    /// The room `player_id` is bound to, if any.
    pub fn get_connection(&self, player_id: &String) -> (r: Option<String>)
        requires
            self.wf(),
        ensures
            r == self.room_of(player_id@),
    {
        match find_key(&self.bindings, player_id) {
            Some(k) => {
                proof {
                    lemma_index_of_key(self.bindings@, k as int);
                }
                Some(self.bindings[k].1.clone())
            },
            None => None,
        }
    }
}

/// The room a player must be evicted from when they join `room_id`, given
/// the room they were bound to before: that room, when it is another one.
pub fn stale_room(previous: Option<String>, room_id: &String) -> (r: Option<String>)
    ensures
        r == match previous {
            Some(p) => if p@ != room_id@ {
                Some(p)
            } else {
                None
            },
            None => None,
        },
{
    match previous {
        Some(p) => if p != *room_id {
            Some(p)
        } else {
            None
        },
        None => None,
    }
}

} // verus!
