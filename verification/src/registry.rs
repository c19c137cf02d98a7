//! The room registry: create, look up, delete, and reap empty rooms.
//!
//! At most one room exists per code. Deletion is idempotent, and the
//! delayed-cleanup path re-checks that the room is still empty when the timer
//! fires, so a timer racing a fresh join can never delete an occupied room.

use vstd::prelude::*;
use crate::room::Room;
use crate::token::{ascii_alphanumeric, random_room_code};

verus! {

/// Grace period before a freshly created room that nobody ever joined is
/// reaped, in seconds.
pub const NEW_ROOM_GRACE_SECS: u64 = 300;

/// Grace period before an emptied room is reaped, in seconds.
pub const EMPTY_ROOM_GRACE_SECS: u64 = 60;

/// `i` is the first position of `s` whose room carries the code `code`.
pub open spec fn is_room_match(s: Seq<Room>, code: Seq<char>, i: int) -> bool {
    &&& 0 <= i < s.len()
    &&& s[i].id@ == code
    &&& forall|j: int| 0 <= j < i ==> s[j].id@ != code
}

pub open spec fn has_code(s: Seq<Room>, code: Seq<char>) -> bool {
    exists|i: int| 0 <= i < s.len() && s[i].id@ == code
}

/// No two rooms share a code.
pub open spec fn unique_codes(s: Seq<Room>) -> bool {
    forall|i: int, j: int| 0 <= i < s.len() && 0 <= j < s.len() && i != j ==> s[i].id@ != s[j].id@
}

/// The in-memory multi-room registry, keyed by room code.
pub struct Registry {
    pub rooms: Vec<Room>,
}

impl Registry {
    /// The registry invariant: codes are unique and every room is
    /// well-formed.
    pub open spec fn wf(self) -> bool {
        &&& unique_codes(self.rooms@)
        &&& forall|i: int| 0 <= i < self.rooms@.len() ==> self.rooms@[i].wf()
    }

    /// An empty registry.
    pub fn new() -> (r: Registry)
        ensures
            r.rooms@ == Seq::<Room>::empty(),
            r.wf(),
    {
        let rooms: Vec<Room> = Vec::new();
        proof {
            assert(rooms@ =~= Seq::<Room>::empty());
        }
        Registry { rooms }
    }

    /// The position of the room with this code, if it exists.
    pub fn room_index(&self, code: &String) -> (r: Option<usize>)
        ensures
            match r {
                Some(i) => is_room_match(self.rooms@, code@, i as int),
                None => !has_code(self.rooms@, code@),
            },
    {
        let n = self.rooms.len();
        let mut j: usize = 0;
        while j < n
            invariant
                n == self.rooms@.len(),
                j <= n,
                forall|k: int| 0 <= k < j ==> self.rooms@[k].id@ != code@,
            decreases n - j,
        {
            if self.rooms[j].id == *code {
                return Some(j);
            }
            j += 1;
        }
        None
    }

    /// A shared borrow of the room at a known position.
    pub fn room_at(&self, i: usize) -> (r: &Room)
        requires
            i < self.rooms@.len(),
        ensures
            *r == self.rooms@[i as int],
    {
        &self.rooms[i]
    }

    /// A mutable borrow of the room at a known position; the registry
    /// afterwards holds whatever the caller left in that slot.
    pub fn room_at_mut(&mut self, i: usize) -> (r: &mut Room)
        requires
            i < old(self).rooms@.len(),
        ensures
            *r == old(self).rooms@[i as int],
            final(self).rooms@ == old(self).rooms@.update(i as int, *final(r)),
    {
        vstd::std_specs::vec::vec_index_mut(&mut self.rooms, i)
    }

    /// Creates a room under a fresh random 7-character alphanumeric code,
    /// with its long-lived cleanup timer armed, and returns the code. Gives
    /// up (leaving the registry unchanged) only if every attempt collides,
    /// which the size of the code space makes negligible; on an empty
    /// registry no collision is possible, so creation is owed there.
    pub fn create_room(&mut self) -> (r: Option<String>)
        ensures
            final(self).rooms@.len() >= old(self).rooms@.len(),
            old(self).wf() ==> final(self).wf(),
            old(self).rooms@.len() == 0 ==> r is Some,
            match r {
                Some(code) => {
                    &&& code@.len() == 7
                    &&& forall|k: int| 0 <= k < 7 ==> ascii_alphanumeric(code@[k])
                    &&& !has_code(old(self).rooms@, code@)
                    &&& final(self).rooms@.len() == old(self).rooms@.len() + 1
                    &&& final(self).rooms@.subrange(0, old(self).rooms@.len() as int) == old(
                        self,
                    ).rooms@
                    &&& ({
                        let room = final(self).rooms@.last();
                        &&& room.id == code
                        &&& room.players@.len() == 0
                        &&& room.round is None
                        &&& room.cleanup_armed
                    })
                },
                None => *final(self) == *old(self),
            },
    {
        let mut attempt: usize = 0;
        while attempt < 16
            invariant
                *self == *old(self),
                old(self).rooms@.len() == 0 ==> attempt == 0,
            decreases 16 - attempt,
        {
            let code = random_room_code();
            if self.room_index(&code).is_none() {
                let code_copy = code.clone();
                let mut room = Room::new(code);
                room.arm_cleanup();
                self.rooms.push(room);
                proof {
                    assert(final(self).rooms@.subrange(0, old(self).rooms@.len() as int)
                        =~= old(self).rooms@);
                }
                return Some(code_copy);
            }
            attempt += 1;
        }
        None
    }

    /// Removes the room with this code. Idempotent: a code already absent
    /// (for instance after a racing delete) changes nothing.
    pub fn delete_room(&mut self, code: &String)
        ensures
            old(self).wf() ==> final(self).wf(),
            !has_code(old(self).rooms@, code@) ==> *final(self) == *old(self),
            forall|i: int|
                is_room_match(old(self).rooms@, code@, i) ==> final(self).rooms@ == old(
                    self,
                ).rooms@.remove(i),
    {
        match self.room_index(code) {
            None => {},
            Some(i) => {
                proof {
                    assert forall|i2: int| is_room_match(old(self).rooms@, code@, i2) implies i2
                        == i as int by {
                        if i2 < i as int {
                            assert(old(self).rooms@[i2].id@ == code@);
                        } else if i2 > i as int {
                            assert(old(self).rooms@[i as int].id@ != code@);
                        }
                    }
                }
                let _ = self.rooms.remove(i);
            },
        }
    }

    /// The delayed-cleanup timer fired for this code: delete the room, but
    /// only if it is still empty — a join that raced the timer keeps the room
    /// alive.
    pub fn cleanup_fire(&mut self, code: &String)
        ensures
            old(self).wf() ==> final(self).wf(),
            !has_code(old(self).rooms@, code@) ==> *final(self) == *old(self),
            forall|i: int|
                is_room_match(old(self).rooms@, code@, i) ==> {
                    if old(self).rooms@[i].players@.len() == 0 {
                        final(self).rooms@ == old(self).rooms@.remove(i)
                    } else {
                        *final(self) == *old(self)
                    }
                },
    {
        match self.room_index(code) {
            None => {},
            Some(i) => {
                proof {
                    assert forall|i2: int| is_room_match(old(self).rooms@, code@, i2) implies i2
                        == i as int by {
                        if i2 < i as int {
                            assert(old(self).rooms@[i2].id@ == code@);
                        } else if i2 > i as int {
                            assert(old(self).rooms@[i as int].id@ != code@);
                        }
                    }
                }
                if self.rooms[i].players.len() == 0 {
                    let _ = self.rooms.remove(i);
                }
            },
        }
    }
}

} // verus!
