//! A room: ordered player list, optional round, and the cleanup-timer flag.
//!
//! Invariants (see [`Room::wf`]): a non-empty room has exactly one host; the
//! cleanup timer is armed exactly while the room is empty; a round exists only
//! while the room is populated.

use vstd::prelude::*;
use crate::events::{infos_of, Delivery, EventError, OutboundWsEvent};
use crate::events::{is_binary_broadcast, is_player_list_broadcast, is_server_msg_broadcast};
use crate::player::{Player, PlayerInfo};
use crate::round::Round;
use crate::text::answer_was_msg;

verus! {

/// Player `i` is the one and only host of `s`.
pub open spec fn sole_host_at(s: Seq<Player>, i: int) -> bool {
    &&& 0 <= i < s.len()
    &&& s[i].info.is_host
    &&& forall|j: int| 0 <= j < s.len() && j != i ==> !s[j].info.is_host
}

/// Exactly one player of `s` is host.
pub open spec fn one_host(s: Seq<Player>) -> bool {
    exists|i: int| sole_host_at(s, i)
}

/// The index of the host (meaningful only under `one_host`).
pub open spec fn host_index(s: Seq<Player>) -> int {
    choose|i: int| sole_host_at(s, i)
}

/// A room has exactly one host whenever it is populated (and, vacuously, zero
/// hosts when empty).
pub open spec fn host_ok(s: Seq<Player>) -> bool {
    s.len() > 0 ==> one_host(s)
}

pub open spec fn pid_match(p: Player, pid: Seq<char>) -> bool {
    p.private_id@ == pid
}

/// `i` is the first position of `s` whose player holds the private id `pid`.
pub open spec fn is_first_match(s: Seq<Player>, pid: Seq<char>, i: int) -> bool {
    &&& 0 <= i < s.len()
    &&& pid_match(s[i], pid)
    &&& forall|j: int| 0 <= j < i ==> !pid_match(s[j], pid)
}

pub open spec fn has_pid(s: Seq<Player>, pid: Seq<char>) -> bool {
    exists|i: int| 0 <= i < s.len() && pid_match(s[i], pid)
}

/// Every sequence that holds a matching player holds a first matching player.
pub proof fn lemma_first_match_exists(s: Seq<Player>, pid: Seq<char>, i: int)
    requires
        0 <= i < s.len(),
        pid_match(s[i], pid),
    ensures
        exists|k: int| is_first_match(s, pid, k),
    decreases i,
{
    if forall|j: int| 0 <= j < i ==> !pid_match(s[j], pid) {
        assert(is_first_match(s, pid, i));
    } else {
        let j = choose|j: int| 0 <= j < i && pid_match(s[j], pid);
        lemma_first_match_exists(s, pid, j);
    }
}

/// The first matching position is unique.
pub proof fn lemma_first_match_unique(s: Seq<Player>, pid: Seq<char>, i: int, j: int)
    requires
        is_first_match(s, pid, i),
        is_first_match(s, pid, j),
    ensures
        i == j,
{
    if i < j {
        assert(pid_match(s[i], pid));
    } else if j < i {
        assert(pid_match(s[j], pid));
    }
}

/// A sole host index is the host index.
pub proof fn lemma_host_index_is(s: Seq<Player>, i: int)
    requires
        sole_host_at(s, i),
    ensures
        host_index(s) == i,
        one_host(s),
{
    assert(one_host(s));
    let h = host_index(s);
    assert(sole_host_at(s, h));
    if h != i {
        assert(!s[h].info.is_host);
    }
}

/// The player with the answer flag cleared.
pub open spec fn clear_answer(p: Player) -> Player {
    Player {
        private_id: p.private_id,
        info: PlayerInfo {
            name: p.info.name,
            public_id: p.info.public_id,
            is_host: p.info.is_host,
            has_answer: false,
        },
    }
}

/// The player with the host flag set to `h`.
pub open spec fn set_host(p: Player, h: bool) -> Player {
    Player {
        private_id: p.private_id,
        info: PlayerInfo {
            name: p.info.name,
            public_id: p.info.public_id,
            is_host: h,
            has_answer: p.info.has_answer,
        },
    }
}

/// The player with the answer flag set.
pub open spec fn mark_answer(p: Player) -> Player {
    Player {
        private_id: p.private_id,
        info: PlayerInfo {
            name: p.info.name,
            public_id: p.info.public_id,
            is_host: p.info.is_host,
            has_answer: true,
        },
    }
}

/// Every player's answer flag cleared.
pub open spec fn cleared(s: Seq<Player>) -> Seq<Player> {
    Seq::new(s.len(), |i: int| clear_answer(s[i]))
}

/// The host moved to the next player in join order, wrapping past the end.
pub open spec fn rotated(s: Seq<Player>) -> Seq<Player> {
    Seq::new(s.len(), |j: int| set_host(s[j], j == (host_index(s) + 1) % (s.len() as int)))
}

/// Player `i` marked as having the answer.
pub open spec fn after_mark(s: Seq<Player>, i: int) -> Seq<Player> {
    s.update(i, mark_answer(s[i]))
}

/// All non-host players have answered; once this holds the round ends.
pub open spec fn all_guessed(s: Seq<Player>) -> bool {
    forall|j: int| 0 <= j < s.len() && !s[j].info.is_host ==> s[j].info.has_answer
}

/// The deliveries produced by ending a round: with a round in progress, the
/// source image, the refreshed player list and the revealed answer, in that
/// order; without one, only the refreshed player list.
pub open spec fn end_round_deliveries(
    round: Option<Round>,
    players_after: Seq<Player>,
    pre: Seq<Delivery>,
    post: Seq<Delivery>,
) -> bool {
    let k = pre.len() as int;
    &&& post.subrange(0, k) == pre
    &&& match round {
        Some(rd) => {
            &&& post.len() == k + 3
            &&& is_binary_broadcast(post[k], rd.image_data@)
            &&& is_player_list_broadcast(post[k + 1], infos_of(players_after))
            &&& is_server_msg_broadcast(post[k + 2], answer_was_msg(rd.answer@))
        },
        None => {
            &&& post.len() == k + 1
            &&& is_player_list_broadcast(post[k], infos_of(players_after))
        },
    }
}

/// An isolated game session: its code, players in join order, the current
/// round if one is active, and whether the delayed-cleanup timer is armed.
pub struct Room {
    pub id: String,
    pub players: Vec<Player>,
    pub round: Option<Round>,
    pub cleanup_armed: bool,
}

impl Room {
    /// The room invariant: one host exactly while populated, the cleanup
    /// timer armed exactly while empty, and no round without players.
    pub open spec fn wf(self) -> bool {
        &&& host_ok(self.players@)
        &&& self.cleanup_armed <==> self.players@.len() == 0
        &&& self.round is Some ==> self.players@.len() > 0
    }

    /// An empty room with the given code; no round, cleanup not yet armed.
    pub fn new(id: String) -> (r: Room)
        ensures
            r.id == id,
            r.players@ == Seq::<Player>::empty(),
            r.round is None,
            !r.cleanup_armed,
    {
        let players: Vec<Player> = Vec::new();
        proof {
            assert(players@ =~= Seq::<Player>::empty());
        }
        Room { id, players, round: None, cleanup_armed: false }
    }

    /// Appends a player to the list; join order is preserved.
    pub fn insert_player(&mut self, player: Player)
        ensures
            final(self).players@ == old(self).players@.push(player),
            final(self).id == old(self).id,
            final(self).round == old(self).round,
            final(self).cleanup_armed == old(self).cleanup_armed,
    {
        self.players.push(player);
    }

    /// Arms the delayed-cleanup flag; the caller schedules the real timer.
    pub fn arm_cleanup(&mut self)
        ensures
            *final(self) == (Room { cleanup_armed: true, ..*old(self) }),
    {
        self.cleanup_armed = true;
    }

    /// Disarms the delayed-cleanup flag; the caller aborts the real timer.
    pub fn cancel_cleanup(&mut self)
        ensures
            *final(self) == (Room { cleanup_armed: false, ..*old(self) }),
    {
        self.cleanup_armed = false;
    }

    /// The index of the first player holding this private id, if any.
    pub fn get_player_index(&self, private_id: &String) -> (r: Option<usize>)
        ensures
            match r {
                Some(i) => is_first_match(self.players@, private_id@, i as int),
                None => !has_pid(self.players@, private_id@),
            },
    {
        let n = self.players.len();
        let mut j: usize = 0;
        while j < n
            invariant
                n == self.players@.len(),
                j <= n,
                forall|k: int| 0 <= k < j ==> !pid_match(self.players@[k], private_id@),
            decreases n - j,
        {
            if self.players[j].private_id == *private_id {
                return Some(j);
            }
            j += 1;
        }
        None
    }

    /// Finds a player by private id; `None` maps to a `PlayerNotFound`
    /// protocol error, never a crash.
    pub fn get_player_from_private_id(&self, private_id: &String) -> (r: Option<&Player>)
        ensures
            match r {
                Some(p) => exists|i: int|
                    is_first_match(self.players@, private_id@, i) && *p == self.players@[i],
                None => !has_pid(self.players@, private_id@),
            },
    {
        match self.get_player_index(private_id) {
            Some(i) => Some(&self.players[i]),
            None => None,
        }
    }

    /// The index of the current host.
    fn host_index_exec(&self) -> (h: usize)
        requires
            one_host(self.players@),
        ensures
            sole_host_at(self.players@, h as int),
            h as int == host_index(self.players@),
    {
        let ghost hi = host_index(self.players@);
        proof {
            assert(sole_host_at(self.players@, hi));
        }
        let n = self.players.len();
        let mut j: usize = 0;
        while !self.players[j].info.is_host
            invariant
                n == self.players@.len(),
                0 <= j <= hi < n,
                sole_host_at(self.players@, hi),
                forall|k: int| 0 <= k < j ==> !self.players@[k].info.is_host,
            decreases hi - j,
        {
            j += 1;
        }
        proof {
            lemma_host_index_is(self.players@, j as int);
        }
        j
    }

    /// Moves the host flag to the next player in join order, wrapping to the
    /// first slot when the host is last; every other field is untouched.
    pub fn advance_host(&mut self)
        requires
            old(self).players@.len() > 0,
            one_host(old(self).players@),
        ensures
            final(self).players@ == rotated(old(self).players@),
            final(self).id == old(self).id,
            final(self).round == old(self).round,
            final(self).cleanup_armed == old(self).cleanup_armed,
            one_host(final(self).players@),
            host_index(final(self).players@) == (host_index(old(self).players@) + 1) % (
            old(self).players@.len() as int),
    {
        let h = self.host_index_exec();
        let n = self.players.len();
        self.players[h].info.is_host = false;
        let next = if h + 1 == n { 0 } else { h + 1 };
        self.players[next].info.is_host = true;
        proof {
            let s = old(self).players@;
            let hi = h as int;
            let len = s.len() as int;
            assert((hi + 1) % len == if hi + 1 == len { 0int } else { hi + 1 }) by (nonlinear_arith)
                requires 0 <= hi < len;
            assert(next as int == (hi + 1) % (s.len() as int));
            assert(self.players@ =~= rotated(s));
            assert(sole_host_at(self.players@, next as int));
            lemma_host_index_is(self.players@, next as int);
        }
    }

    /// Installs a round; fails without touching anything when one is already
    /// active.
    pub fn start_round(&mut self, round: Round) -> (r: Result<(), EventError>)
        ensures
            old(self).round is Some ==> r == Err::<(), EventError>(EventError::RoundAlreadyActive)
                && *final(self) == *old(self),
            old(self).round is None ==> r == Ok::<(), EventError>(()) && *final(self) == (Room {
                round: Some(round),
                ..*old(self)
            }),
    {
        if self.round.is_some() {
            return Err(EventError::RoundAlreadyActive);
        }
        self.round = Some(round);
        Ok(())
    }

    /// Ends the round: every answer flag is cleared, the host rotates once,
    /// the source image, refreshed player list and revealed answer are
    /// broadcast, and the round is dropped.
    pub fn end_round(&mut self, out: &mut Vec<Delivery>)
        requires
            old(self).players@.len() > 0,
            one_host(old(self).players@),
        ensures
            final(self).players@ == rotated(cleared(old(self).players@)),
            final(self).round is None,
            final(self).id == old(self).id,
            final(self).cleanup_armed == old(self).cleanup_armed,
            one_host(final(self).players@),
            host_index(final(self).players@) == (host_index(old(self).players@) + 1) % (
            old(self).players@.len() as int),
            end_round_deliveries(old(self).round, final(self).players@, old(out)@, final(out)@),
            old(self).wf() ==> final(self).wf(),
    {
        let ghost s0 = old(self).players@;
        let n = self.players.len();
        let mut j: usize = 0;
        while j < n
            invariant
                n == self.players@.len(),
                j <= n,
                forall|k: int| 0 <= k < j ==> self.players@[k] == clear_answer(s0[k]),
                forall|k: int| j <= k < n ==> self.players@[k] == s0[k],
                self.id == old(self).id,
                self.round == old(self).round,
                self.cleanup_armed == old(self).cleanup_armed,
            decreases n - j,
        {
            self.players[j].info.has_answer = false;
            j += 1;
        }
        proof {
            assert(self.players@ =~= cleared(s0));
            let h0 = host_index(s0);
            assert(sole_host_at(s0, h0));
            assert(sole_host_at(cleared(s0), h0));
            lemma_host_index_is(cleared(s0), h0);
        }
        self.advance_host();
        match &self.round {
            Some(rd) => {
                let bytes = crate::events::clone_bytes(&rd.image_data);
                out.push(Delivery::ToAllBinary { bytes });
            },
            None => {},
        }
        let infos = self.current_infos();
        out.push(Delivery::ToAll { event: OutboundWsEvent::PlayerList(infos) });
        match &self.round {
            Some(rd) => {
                let msg = crate::text::make_answer_was_msg(&rd.answer);
                out.push(Delivery::ToAll { event: OutboundWsEvent::ServerMessage(msg) });
            },
            None => {},
        }
        self.round = None;
        proof {
            let k = old(out)@.len() as int;
            assert(final(out)@.subrange(0, k) =~= old(out)@);
        }
    }

    /// Finds a player by private id for in-place mutation; the player list
    /// afterwards holds whatever the caller left at that slot.
    pub fn get_player_mut_from_private_id(&mut self, private_id: &String) -> (r: Option<
        &mut Player,
    >)
        ensures
            !has_pid(old(self).players@, private_id@) ==> r is None && *final(self) == *old(self),
            forall|i: int|
                is_first_match(old(self).players@, private_id@, i) ==> (r matches Some(p)
                    && *p == old(self).players@[i]
                    && final(self).players@ == old(self).players@.update(i, *final(p))
                    && final(self).id == old(self).id
                    && final(self).round == old(self).round
                    && final(self).cleanup_armed == old(self).cleanup_armed),
    {
        let ghost s = self.players@;
        match self.get_player_index(private_id) {
            None => None,
            Some(i) => {
                proof {
                    assert forall|i2: int| is_first_match(s, private_id@, i2) implies i2
                        == i as int by {
                        lemma_first_match_unique(s, private_id@, i2, i as int);
                    }
                }
                Some(vstd::std_specs::vec::vec_index_mut(&mut self.players, i))
            },
        }
    }

    /// A copy of every player's public info, in join order.
    pub fn current_infos(&self) -> (v: Vec<PlayerInfo>)
        ensures
            v@ == infos_of(self.players@),
    {
        let n = self.players.len();
        let mut v: Vec<PlayerInfo> = Vec::new();
        let mut j: usize = 0;
        while j < n
            invariant
                n == self.players@.len(),
                j <= n,
                v@ == infos_of(self.players@).subrange(0, j as int),
            decreases n - j,
        {
            v.push(self.players[j].info.duplicate());
            j += 1;
            proof {
                assert(v@ =~= infos_of(self.players@).subrange(0, j as int));
            }
        }
        proof {
            assert(v@ =~= infos_of(self.players@));
        }
        v
    }
}

} // verus!
