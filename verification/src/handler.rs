//! Connection lifecycle and inbound-event handling: admission, disconnect,
//! round upload, and the per-event protocol state machine.
//!
//! Every operation takes the room by mutable reference, validates the request
//! against current state (authorization is re-checked on every event, never
//! cached), applies the mutation, and appends the outbound deliveries the
//! transport must perform.

use vstd::prelude::*;
use crate::events::{clone_circles, infos_of, Delivery, EventError, InboundWsEvent, OutboundWsEvent};
use crate::events::{
    is_answer_to, is_chat_broadcast, is_circle_broadcast, is_circle_seq_to,
    is_new_image_broadcast, is_new_image_to, is_player_list_broadcast, is_private_info_to,
    is_secret_chat_to, is_server_msg_broadcast,
};
use crate::player::Player;
use crate::room::{
    after_mark, all_guessed, cleared, end_round_deliveries, has_pid, host_index, is_first_match,
    pid_match, rotated, sole_host_at, Room,
};
use crate::room::lemma_first_match_unique;
use crate::round::Round;
use crate::text::{hint_of, lower_of, normalized};

verus! {

/// The name-handshake decision: the first event on a fresh connection must
/// carry the player's display name; anything else aborts the handshake.
pub fn name_from_event(event: InboundWsEvent) -> (r: Option<String>)
    ensures
        match event {
            InboundWsEvent::PlayerName(n) => r == Some(n),
            _ => r is None,
        },
{
    match event {
        InboundWsEvent::PlayerName(n) => Some(n),
        _ => None,
    }
}

/// The deliveries owed to a newly admitted player and to the room: private
/// info to the newcomer, catch-up on any active round (image, then the
/// circles drawn so far, if any), then the refreshed player list and a join
/// notice to everyone.
pub open spec fn admit_deliveries(
    round: Option<Round>,
    players_after: Seq<Player>,
    pid: Seq<char>,
    name: Seq<char>,
    pre: Seq<Delivery>,
    post: Seq<Delivery>,
) -> bool {
    let k = pre.len() as int;
    let idx = players_after.len() - 1;
    &&& post.subrange(0, k) == pre
    &&& is_private_info_to(post[k], idx, pid, players_after[idx].info)
    &&& match round {
        Some(rd) => {
            &&& is_new_image_to(post[k + 1], idx, rd.image_dimensions, hint_of(rd.answer@))
            &&& if rd.circles@.len() > 0 {
                &&& post.len() == k + 5
                &&& is_circle_seq_to(post[k + 2], idx, rd.circles@)
                &&& is_player_list_broadcast(post[k + 3], infos_of(players_after))
                &&& is_server_msg_broadcast(post[k + 4], name + " joined"@)
            } else {
                &&& post.len() == k + 4
                &&& is_player_list_broadcast(post[k + 2], infos_of(players_after))
                &&& is_server_msg_broadcast(post[k + 3], name + " joined"@)
            }
        },
        None => {
            &&& post.len() == k + 3
            &&& is_player_list_broadcast(post[k + 1], infos_of(players_after))
            &&& is_server_msg_broadcast(post[k + 2], name + " joined"@)
        },
    }
}

/// What removing the player at first-match position `i` does: if the player
/// was host, the round ends first (answers reset, host rotated, round-end
/// broadcasts); then the player leaves the list; an emptied room arms its
/// cleanup timer, otherwise the room is told who left.
pub open spec fn disconnect_post(
    pre: Room,
    post: Room,
    i: int,
    dpre: Seq<Delivery>,
    dpost: Seq<Delivery>,
    armed: bool,
) -> bool {
    let s = pre.players@;
    let was_host = s[i].info.is_host;
    let base = if was_host { rotated(cleared(s)) } else { s };
    let remaining = base.remove(i);
    let k1 = dpre.len() as int + if was_host {
        if pre.round is Some { 3int } else { 1int }
    } else {
        0int
    };
    &&& post.players@ == remaining
    &&& post.round == if was_host { None::<Round> } else { pre.round }
    &&& post.id == pre.id
    &&& armed == (remaining.len() == 0)
    &&& post.cleanup_armed == if remaining.len() == 0 { true } else { pre.cleanup_armed }
    &&& if was_host {
        end_round_deliveries(pre.round, base, dpre, dpost.subrange(0, k1))
    } else {
        dpost.subrange(0, k1) == dpre
    }
    &&& if remaining.len() == 0 {
        dpost.len() == k1
    } else {
        &&& dpost.len() == k1 + 2
        &&& is_server_msg_broadcast(dpost[k1], s[i].info.name@ + " left"@)
        &&& is_player_list_broadcast(dpost[k1 + 1], infos_of(remaining))
    }
}

/// Indices of the players allowed to read the secret channel — those who have
/// already answered, and the host — in ascending order.
pub open spec fn secret_recipients(s: Seq<Player>) -> Seq<int>
    decreases s.len(),
{
    if s.len() == 0 {
        Seq::empty()
    } else {
        let pre = secret_recipients(s.drop_last());
        if s.last().info.has_answer || s.last().info.is_host {
            pre.push(s.len() - 1)
        } else {
            pre
        }
    }
}

/// The deliveries of one secret chat line: one copy per allowed reader, in
/// player-list order, always under the sender's name.
pub open spec fn secret_chat_deliveries(
    s: Seq<Player>,
    name: Seq<char>,
    text: Seq<char>,
    pre: Seq<Delivery>,
    post: Seq<Delivery>,
) -> bool {
    let k = pre.len() as int;
    let t = secret_recipients(s);
    &&& post.subrange(0, k) == pre
    &&& post.len() == k + t.len()
    &&& forall|m: int| 0 <= m < t.len() ==> is_secret_chat_to(post[k + m], t[m], name, text)
}

/// What a successful guess (or a give-up) by the non-host player at position
/// `i` does: the answer flag is set, the answer is revealed privately, a
/// notice and the refreshed player list are broadcast; and the round ends
/// exactly when every non-host player now has the answer.
pub open spec fn guess_success_post(
    pre: Room,
    post: Room,
    i: int,
    suffix: Seq<char>,
    dpre: Seq<Delivery>,
    dpost: Seq<Delivery>,
) -> bool {
    let s = pre.players@;
    let rd = pre.round->Some_0;
    let s1 = after_mark(s, i);
    let ends = all_guessed(s1);
    let k = dpre.len() as int;
    &&& dpost.subrange(0, k) == dpre
    &&& dpost.len() > k + 2
    &&& is_answer_to(dpost[k], i, rd.answer@)
    &&& is_server_msg_broadcast(dpost[k + 1], s[i].info.name@ + suffix)
    &&& is_player_list_broadcast(dpost[k + 2], infos_of(s1))
    &&& post.id == pre.id
    &&& post.cleanup_armed == pre.cleanup_armed
    &&& if ends {
        &&& post.players@ == rotated(cleared(s1))
        &&& post.round is None
        &&& end_round_deliveries(pre.round, post.players@, dpost.subrange(0, k + 3), dpost)
    } else {
        &&& post.players@ == s1
        &&& post.round == pre.round
        &&& dpost.len() == k + 3
    }
}

/// The request changed nothing: state and pending deliveries are as before.
pub open spec fn no_effect(pre: Room, post: Room, dpre: Seq<Delivery>, dpost: Seq<Delivery>)
    -> bool {
    post == pre && dpost == dpre
}

/// What a chat line from the first-match sender `i` does, given that the line
/// is non-empty: without a round it is a plain broadcast; during a round an
/// already-answered sender or the host speaks on the secret channel, a correct
/// guess is handled as a guess, and anything else is a plain broadcast.
pub open spec fn chat_post(
    pre: Room,
    post: Room,
    i: int,
    text: Seq<char>,
    dpre: Seq<Delivery>,
    dpost: Seq<Delivery>,
    r: Result<(), EventError>,
) -> bool {
    let s = pre.players@;
    &&& r == Ok::<(), EventError>(())
    &&& match pre.round {
        None => {
            &&& post == pre
            &&& dpost.len() == dpre.len() + 1
            &&& dpost.subrange(0, dpre.len() as int) == dpre
            &&& is_chat_broadcast(dpost.last(), s[i].info.name@, text)
        },
        Some(rd) => {
            if s[i].info.has_answer || s[i].info.is_host {
                &&& post == pre
                &&& secret_chat_deliveries(s, s[i].info.name@, text, dpre, dpost)
            } else if normalized(text) == rd.answer@ {
                guess_success_post(pre, post, i, " got it right"@, dpre, dpost)
            } else {
                &&& post == pre
                &&& dpost.len() == dpre.len() + 1
                &&& dpost.subrange(0, dpre.len() as int) == dpre
                &&& is_chat_broadcast(dpost.last(), s[i].info.name@, text)
            }
        },
    }
}

impl Room {
    /// Whether every non-host player has answered.
    fn all_guessed_exec(&self) -> (r: bool)
        ensures
            r == all_guessed(self.players@),
    {
        let n = self.players.len();
        let mut j: usize = 0;
        while j < n
            invariant
                n == self.players@.len(),
                j <= n,
                forall|k: int|
                    0 <= k < j && !self.players@[k].info.is_host
                        ==> self.players@[k].info.has_answer,
            decreases n - j,
        {
            if !self.players[j].info.is_host && !self.players[j].info.has_answer {
                return false;
            }
            j += 1;
        }
        true
    }

    /// Marks player `i` as having the answer, reveals the answer privately,
    /// broadcasts a notice (the player's name followed by `suffix`) and the
    /// refreshed player list, and ends the round if this completed the set of
    /// non-host answers.
    fn finish_guess(&mut self, i: usize, suffix: &str, out: &mut Vec<Delivery>)
        requires
            old(self).wf(),
            old(self).round is Some,
            i < old(self).players@.len(),
            !old(self).players@[i as int].info.is_host,
        ensures
            final(self).wf(),
            final(self).id == old(self).id,
            guess_success_post(*old(self), *final(self), i as int, suffix@, old(out)@, final(out)@),
    {
        let ghost s = self.players@;
        self.players[i].info.has_answer = true;
        proof {
            assert(self.players@ =~= after_mark(s, i as int));
            let h = host_index(s);
            assert(sole_host_at(s, h));
            assert(sole_host_at(self.players@, h));
        }
        let answer = match &self.round {
            Some(rd) => rd.answer.clone(),
            None => String::new(),
        };
        out.push(Delivery::ToPlayer { player: i, event: OutboundWsEvent::Answer(answer) });
        let notice = crate::text::name_msg(&self.players[i].info.name, suffix);
        out.push(Delivery::ToAll { event: OutboundWsEvent::ServerMessage(notice) });
        let infos = self.current_infos();
        out.push(Delivery::ToAll { event: OutboundWsEvent::PlayerList(infos) });
        let ghost mid = out@;
        let over = self.all_guessed_exec();
        if over {
            self.end_round(out);
        }
        proof {
            let k = old(out)@.len() as int;
            assert(mid.subrange(0, k) =~= old(out)@);
            assert(final(out)@.subrange(0, k + 3) =~= mid);
            assert(final(out)@.subrange(0, k) =~= old(out)@);
            assert(final(out)@[k] == mid[k]);
            assert(final(out)@[k + 1] == mid[k + 1]);
            assert(final(out)@[k + 2] == mid[k + 2]);
        }
    }

    /// Applies a non-empty chat line from the player holding `private_id`.
    /// During a round, guessers' lines are compared to the answer; players who
    /// already answered, and the host, talk on the secret channel instead.
    pub fn handle_chat_message(&mut self, message: &str, private_id: &String, out: &mut Vec<
        Delivery,
    >) -> (r: Result<(), EventError>)
        requires
            old(self).wf(),
        ensures
            final(self).wf(),
            final(self).id == old(self).id,
            message@.len() == 0 ==> r == Err::<(), EventError>(EventError::EmptyMessage)
                && no_effect(*old(self), *final(self), old(out)@, final(out)@),
            message@.len() > 0 && !has_pid(old(self).players@, private_id@) ==> r == Err::<
                (),
                EventError,
            >(EventError::PlayerNotFound) && no_effect(*old(self), *final(self), old(out)@, final(out)@),
            message@.len() > 0 ==> forall|i: int|
                is_first_match(old(self).players@, private_id@, i) ==> chat_post(
                    *old(self),
                    *final(self),
                    i,
                    message@,
                    old(out)@,
                    final(out)@,
                    r,
                ),
    {
        let ghost s = self.players@;
        if message.is_empty() {
            return Err(EventError::EmptyMessage);
        }
        let i = match self.get_player_index(private_id) {
            None => {
                return Err(EventError::PlayerNotFound);
            },
            Some(i) => i,
        };
        proof {
            assert forall|i2: int| is_first_match(s, private_id@, i2) implies i2 == i as int by {
                lemma_first_match_unique(s, private_id@, i2, i as int);
            }
        }
        let round_active = self.round.is_some();
        if round_active {
            let sender_privileged = self.players[i].info.has_answer
                || self.players[i].info.is_host;
            if sender_privileged {
                self.send_secret_chat(i, message, out);
                return Ok(());
            }
            let guessed = match &self.round {
                Some(rd) => rd.is_correct_answer(message),
                None => false,
            };
            if guessed {
                self.finish_guess(i, " got it right", out);
                return Ok(());
            }
        }
        let name_copy = self.players[i].info.name.clone();
        let text_copy = String::from_str(message);
        out.push(
            Delivery::ToAll {
                event: OutboundWsEvent::ChatMessage { name: name_copy, text: text_copy },
            },
        );
        proof {
            assert(final(out)@.subrange(0, old(out)@.len() as int) =~= old(out)@);
        }
        Ok(())
    }

    /// Sends one secret chat line from sender `i` to every player who already
    /// answered and to the host, in list order.
    fn send_secret_chat(&self, i: usize, message: &str, out: &mut Vec<Delivery>)
        requires
            i < self.players@.len(),
        ensures
            secret_chat_deliveries(
                self.players@,
                self.players@[i as int].info.name@,
                message@,
                old(out)@,
                final(out)@,
            ),
    {
        let ghost s = self.players@;
        let ghost k = old(out)@.len() as int;
        let n = self.players.len();
        let mut batch: Vec<Delivery> = Vec::new();
        let mut j: usize = 0;
        while j < n
            invariant
                n == s.len(),
                s == self.players@,
                i < n,
                j <= n,
                batch@.len() == secret_recipients(s.take(j as int)).len(),
                forall|m: int|
                    0 <= m < secret_recipients(s.take(j as int)).len() ==> is_secret_chat_to(
                        batch@[m],
                        secret_recipients(s.take(j as int))[m],
                        s[i as int].info.name@,
                        message@,
                    ),
            decreases n - j,
        {
            proof {
                assert(s.take(j + 1).drop_last() =~= s.take(j as int));
                assert(s.take(j + 1).last() == s[j as int]);
            }
            if self.players[j].info.has_answer || self.players[j].info.is_host {
                let name_copy = self.players[i].info.name.clone();
                let text_copy = String::from_str(message);
                batch.push(
                    Delivery::ToPlayer {
                        player: j,
                        event: OutboundWsEvent::SecretChatMessage {
                            name: name_copy,
                            text: text_copy,
                        },
                    },
                );
            }
            j += 1;
        }
        proof {
            assert(s.take(n as int) =~= s);
        }
        out.append(&mut batch);
        proof {
            assert(final(out)@.subrange(0, k) =~= old(out)@);
        }
    }

    /// Validates one inbound event against current room state and applies
    /// it. Authorization is checked against the player list as it stands now,
    /// never cached from admission.
    pub fn handle_inbound_ws_event(&mut self, private_id: &String, event: InboundWsEvent, out: &mut Vec<
        Delivery,
    >) -> (r: Result<(), EventError>)
        requires
            old(self).wf(),
        ensures
            final(self).wf(),
            final(self).id == old(self).id,
            match event {
                InboundWsEvent::ChatMessage(text) => {
                    &&& text@.len() == 0 ==> r == Err::<(), EventError>(EventError::EmptyMessage)
                        && no_effect(*old(self), *final(self), old(out)@, final(out)@)
                    &&& text@.len() > 0 && !has_pid(old(self).players@, private_id@) ==> r
                        == Err::<(), EventError>(EventError::PlayerNotFound) && no_effect(
                        *old(self),
                        *final(self),
                        old(out)@,
                        final(out)@,
                    )
                    &&& text@.len() > 0 ==> forall|i: int|
                        is_first_match(old(self).players@, private_id@, i) ==> chat_post(
                            *old(self),
                            *final(self),
                            i,
                            text@,
                            old(out)@,
                            final(out)@,
                            r,
                        )
                },
                InboundWsEvent::GiveUp => {
                    &&& old(self).round is None ==> r == Err::<(), EventError>(
                        EventError::NoActiveRound,
                    ) && no_effect(*old(self), *final(self), old(out)@, final(out)@)
                    &&& old(self).round is Some && !has_pid(old(self).players@, private_id@) ==> r
                        == Err::<(), EventError>(EventError::PlayerNotFound) && no_effect(
                        *old(self),
                        *final(self),
                        old(out)@,
                        final(out)@,
                    )
                    &&& old(self).round is Some ==> forall|i: int|
                        is_first_match(old(self).players@, private_id@, i) ==> {
                            if old(self).players@[i].info.is_host {
                                r == Err::<(), EventError>(EventError::HostCannotGiveUp)
                                    && no_effect(*old(self), *final(self), old(out)@, final(out)@)
                            } else {
                                r == Ok::<(), EventError>(()) && guess_success_post(
                                    *old(self),
                                    *final(self),
                                    i,
                                    " gave up"@,
                                    old(out)@,
                                    final(out)@,
                                )
                            }
                        }
                },
                InboundWsEvent::Circle(c) => {
                    &&& !has_pid(old(self).players@, private_id@) ==> r == Err::<(), EventError>(
                        EventError::PlayerNotFound,
                    ) && no_effect(*old(self), *final(self), old(out)@, final(out)@)
                    &&& forall|i: int|
                        is_first_match(old(self).players@, private_id@, i) ==> {
                            if !old(self).players@[i].info.is_host {
                                r == Err::<(), EventError>(EventError::NotHost) && no_effect(
                                    *old(self),
                                    *final(self),
                                    old(out)@,
                                    final(out)@,
                                )
                            } else if old(self).round is Some {
                                let rd = old(self).round->Some_0;
                                &&& r == Ok::<(), EventError>(())
                                &&& final(self).players@ == old(self).players@
                                &&& final(self).cleanup_armed == old(self).cleanup_armed
                                &&& final(self).round matches Some(rd2) && rd2.circles@
                                    == rd.circles@.push(c) && rd2.image_data == rd.image_data
                                    && rd2.image_dimensions == rd.image_dimensions && rd2.answer
                                    == rd.answer
                                &&& final(out)@.len() == old(out)@.len() + 1
                                &&& final(out)@.subrange(0, old(out)@.len() as int) == old(out)@
                                &&& is_circle_broadcast(final(out)@.last(), c)
                            } else {
                                r == Ok::<(), EventError>(()) && no_effect(
                                    *old(self),
                                    *final(self),
                                    old(out)@,
                                    final(out)@,
                                )
                            }
                        }
                },
                InboundWsEvent::Pass => {
                    &&& !has_pid(old(self).players@, private_id@) ==> r == Err::<(), EventError>(
                        EventError::PlayerNotFound,
                    ) && no_effect(*old(self), *final(self), old(out)@, final(out)@)
                    &&& forall|i: int|
                        is_first_match(old(self).players@, private_id@, i) ==> {
                            if !old(self).players@[i].info.is_host {
                                r == Err::<(), EventError>(EventError::NotHost) && no_effect(
                                    *old(self),
                                    *final(self),
                                    old(out)@,
                                    final(out)@,
                                )
                            } else if old(self).round is Some {
                                r == Err::<(), EventError>(EventError::RoundInProgress)
                                    && no_effect(*old(self), *final(self), old(out)@, final(out)@)
                            } else {
                                &&& r == Ok::<(), EventError>(())
                                &&& final(self).players@ == rotated(old(self).players@)
                                &&& final(self).round is None
                                &&& final(self).cleanup_armed == old(self).cleanup_armed
                                &&& final(out)@.len() == old(out)@.len() + 1
                                &&& final(out)@.subrange(0, old(out)@.len() as int) == old(out)@
                                &&& is_player_list_broadcast(
                                    final(out)@.last(),
                                    infos_of(rotated(old(self).players@)),
                                )
                            }
                        }
                },
                InboundWsEvent::NewImage { dimensions, answer } => {
                    &&& !has_pid(old(self).players@, private_id@) ==> r == Err::<(), EventError>(
                        EventError::PlayerNotFound,
                    ) && no_effect(*old(self), *final(self), old(out)@, final(out)@)
                    &&& forall|i: int|
                        is_first_match(old(self).players@, private_id@, i) ==> {
                            if !old(self).players@[i].info.is_host {
                                r == Err::<(), EventError>(EventError::NotHost) && no_effect(
                                    *old(self),
                                    *final(self),
                                    old(out)@,
                                    final(out)@,
                                )
                            } else if old(self).round is Some {
                                r == Err::<(), EventError>(EventError::RoundAlreadyActive)
                                    && no_effect(*old(self), *final(self), old(out)@, final(out)@)
                            } else {
                                &&& r == Ok::<(), EventError>(())
                                &&& final(self).players@ == old(self).players@
                                &&& final(self).cleanup_armed == old(self).cleanup_armed
                                &&& final(self).round matches Some(rd2) && rd2.circles@.len() == 0
                                    && rd2.image_data@.len() == 0 && rd2.image_dimensions
                                    == dimensions && rd2.answer@ == lower_of(answer@)
                                &&& final(out)@.len() == old(out)@.len() + 1
                                &&& final(out)@.subrange(0, old(out)@.len() as int) == old(out)@
                                &&& is_new_image_broadcast(
                                    final(out)@.last(),
                                    dimensions,
                                    hint_of(lower_of(answer@)),
                                )
                            }
                        }
                },
                InboundWsEvent::PlayerName(_) => r == Err::<(), EventError>(EventError::Unsupported)
                    && no_effect(*old(self), *final(self), old(out)@, final(out)@),
            },
    {
        let ghost s = self.players@;
        match event {
            InboundWsEvent::ChatMessage(text) => self.handle_chat_message(
                text.as_str(),
                private_id,
                out,
            ),
            InboundWsEvent::GiveUp => {
                if self.round.is_none() {
                    return Err(EventError::NoActiveRound);
                }
                let i = match self.get_player_index(private_id) {
                    None => {
                        return Err(EventError::PlayerNotFound);
                    },
                    Some(i) => i,
                };
                proof {
                    assert forall|i2: int| is_first_match(s, private_id@, i2) implies i2
                        == i as int by {
                        lemma_first_match_unique(s, private_id@, i2, i as int);
                    }
                }
                if self.players[i].info.is_host {
                    return Err(EventError::HostCannotGiveUp);
                }
                self.finish_guess(i, " gave up", out);
                Ok(())
            },
            InboundWsEvent::Circle(c) => {
                let i = match self.get_player_index(private_id) {
                    None => {
                        return Err(EventError::PlayerNotFound);
                    },
                    Some(i) => i,
                };
                proof {
                    assert forall|i2: int| is_first_match(s, private_id@, i2) implies i2
                        == i as int by {
                        lemma_first_match_unique(s, private_id@, i2, i as int);
                    }
                }
                if !self.players[i].info.is_host {
                    return Err(EventError::NotHost);
                }
                let round_active = self.round.is_some();
                if round_active {
                    match &mut self.round {
                        Some(rd) => {
                            rd.add_circle(c);
                        },
                        None => {},
                    }
                    out.push(Delivery::ToAll { event: OutboundWsEvent::Circle(c) });
                    proof {
                        assert(final(out)@.subrange(0, old(out)@.len() as int) =~= old(out)@);
                    }
                }
                Ok(())
            },
            InboundWsEvent::Pass => {
                let i = match self.get_player_index(private_id) {
                    None => {
                        return Err(EventError::PlayerNotFound);
                    },
                    Some(i) => i,
                };
                proof {
                    assert forall|i2: int| is_first_match(s, private_id@, i2) implies i2
                        == i as int by {
                        lemma_first_match_unique(s, private_id@, i2, i as int);
                    }
                }
                if !self.players[i].info.is_host {
                    return Err(EventError::NotHost);
                }
                if self.round.is_some() {
                    return Err(EventError::RoundInProgress);
                }
                proof {
                    crate::room::lemma_host_index_is(s, i as int);
                }
                self.advance_host();
                let infos = self.current_infos();
                out.push(Delivery::ToAll { event: OutboundWsEvent::PlayerList(infos) });
                proof {
                    assert(final(out)@.subrange(0, old(out)@.len() as int) =~= old(out)@);
                }
                Ok(())
            },
            InboundWsEvent::NewImage { dimensions, answer } => {
                let i = match self.get_player_index(private_id) {
                    None => {
                        return Err(EventError::PlayerNotFound);
                    },
                    Some(i) => i,
                };
                proof {
                    assert forall|i2: int| is_first_match(s, private_id@, i2) implies i2
                        == i as int by {
                        lemma_first_match_unique(s, private_id@, i2, i as int);
                    }
                }
                if !self.players[i].info.is_host {
                    return Err(EventError::NotHost);
                }
                if self.round.is_some() {
                    return Err(EventError::RoundAlreadyActive);
                }
                let image_data: Vec<u8> = Vec::new();
                proof {
                    assert(image_data@ =~= Seq::<u8>::empty());
                }
                let rd = Round::new(image_data, dimensions, answer.as_str());
                let hint = rd.answer_hint();
                let installed = self.start_round(rd);
                proof {
                    assert(installed is Ok);
                }
                out.push(
                    Delivery::ToAll {
                        event: OutboundWsEvent::NewImage { dimensions, answer_hint: hint },
                    },
                );
                proof {
                    assert(final(out)@.subrange(0, old(out)@.len() as int) =~= old(out)@);
                }
                Ok(())
            },
            InboundWsEvent::PlayerName(_) => Err(EventError::Unsupported),
        }
    }

    /// Admits a player past the name handshake: cancels any pending cleanup,
    /// appends the player (host exactly when the room was empty), and emits
    /// the admission deliveries. Returns the player's private id.
    pub fn admit_player(&mut self, name: String, out: &mut Vec<Delivery>) -> (private_id: String)
        requires
            old(self).wf(),
        ensures
            final(self).wf(),
            final(self).id == old(self).id,
            final(self).round == old(self).round,
            !final(self).cleanup_armed,
            final(self).players@.len() == old(self).players@.len() + 1,
            final(self).players@.subrange(0, old(self).players@.len() as int)
                == old(self).players@,
            final(self).players@.last().info.name == name,
            final(self).players@.last().info.is_host == (old(self).players@.len() == 0),
            !final(self).players@.last().info.has_answer,
            final(self).players@.last().private_id == private_id,
            admit_deliveries(
                old(self).round,
                final(self).players@,
                private_id@,
                name@,
                old(out)@,
                final(out)@,
            ),
    {
        let ghost s0 = self.players@;
        let is_host = self.players.len() == 0;
        let joined_msg = crate::text::name_msg(&name, " joined");
        let player = Player::new(name, is_host);
        let pid = player.private_id.clone();
        let idx = self.players.len();
        let info_copy = player.info.duplicate();
        let pid_copy = pid.clone();
        self.cancel_cleanup();
        self.insert_player(player);
        proof {
            assert(self.players@.subrange(0, s0.len() as int) =~= s0);
            if s0.len() == 0 {
                assert(sole_host_at(self.players@, 0));
            } else {
                let h = host_index(s0);
                assert(sole_host_at(s0, h));
                assert(sole_host_at(self.players@, h));
            }
        }
        out.push(
            Delivery::ToPlayer {
                player: idx,
                event: OutboundWsEvent::PrivateInfo { private_id: pid_copy, info: info_copy },
            },
        );
        match &self.round {
            Some(rd) => {
                let hint = rd.answer_hint();
                out.push(
                    Delivery::ToPlayer {
                        player: idx,
                        event: OutboundWsEvent::NewImage {
                            dimensions: rd.image_dimensions,
                            answer_hint: hint,
                        },
                    },
                );
                if rd.circles.len() > 0 {
                    let cs = clone_circles(&rd.circles);
                    out.push(
                        Delivery::ToPlayer {
                            player: idx,
                            event: OutboundWsEvent::CircleSequence(cs),
                        },
                    );
                }
            },
            None => {},
        }
        let infos = self.current_infos();
        out.push(Delivery::ToAll { event: OutboundWsEvent::PlayerList(infos) });
        out.push(Delivery::ToAll { event: OutboundWsEvent::ServerMessage(joined_msg) });
        proof {
            let k = old(out)@.len() as int;
            assert(final(out)@.subrange(0, k) =~= old(out)@);
        }
        pid
    }

    /// Removes a disconnecting player. Ending the round first when the host
    /// leaves is what promotes the next player in join order; an emptied room
    /// arms its cleanup timer. An unknown id changes nothing (the connection
    /// may be racing its own disconnect).
    pub fn handle_disconnect(&mut self, private_id: &String, out: &mut Vec<Delivery>) -> (armed:
        bool)
        requires
            old(self).wf(),
        ensures
            final(self).wf(),
            !has_pid(old(self).players@, private_id@) ==> *final(self) == *old(self)
                && final(out)@ == old(out)@ && !armed,
            forall|i: int|
                is_first_match(old(self).players@, private_id@, i) ==> disconnect_post(
                    *old(self),
                    *final(self),
                    i,
                    old(out)@,
                    final(out)@,
                    armed,
                ),
    {
        let ghost s = self.players@;
        let ghost dpre = out@;
        match self.get_player_index(private_id) {
            None => false,
            Some(i) => {
                proof {
                    assert forall|i2: int| is_first_match(s, private_id@, i2) implies i2 == i as int
                    by {
                        if i2 < i as int {
                            assert(pid_match(s[i2], private_id@));
                        } else if i2 > i as int {
                            assert(!pid_match(s[i as int], private_id@));
                        }
                    }
                }
                let was_host = self.players[i].info.is_host;
                proof {
                    if was_host {
                        let h = host_index(s);
                        assert(sole_host_at(s, h));
                        if h != i as int {
                            assert(!s[i as int].info.is_host);
                        }
                        crate::room::lemma_host_index_is(s, i as int);
                    }
                }
                if was_host {
                    self.end_round(out);
                }
                let ghost mid = out@;
                let ghost k1 = mid.len() as int;
                let ghost base = self.players@;
                let removed = self.players.remove(i);
                proof {
                    assert(self.players@ == base.remove(i as int));
                    if was_host {
                        let nxt = (i as int + 1) % (s.len() as int);
                        let ii = i as int;
                        let len = s.len() as int;
                        assert((ii + 1) % len == if ii + 1 == len { 0int } else { ii + 1 })
                            by (nonlinear_arith)
                            requires 0 <= ii < len;
                        assert(sole_host_at(base, nxt));
                        if self.players@.len() > 0 {
                            if nxt > i as int {
                                assert(sole_host_at(self.players@, nxt - 1));
                            } else {
                                assert(nxt == 0);
                                assert(sole_host_at(self.players@, 0));
                            }
                        }
                    } else {
                        if s.len() > 0 {
                            let h = host_index(s);
                            assert(sole_host_at(s, h));
                            assert(h != i as int);
                            if h > i as int {
                                assert(sole_host_at(self.players@, h - 1));
                            } else {
                                assert(sole_host_at(self.players@, h));
                            }
                        }
                    }
                }
                if self.players.len() == 0 {
                    self.arm_cleanup();
                    proof {
                        assert(final(out)@ == mid);
                        assert(final(out)@.subrange(0, k1) =~= mid);
                    }
                    true
                } else {
                    let left_msg = crate::text::name_msg(&removed.info.name, " left");
                    out.push(Delivery::ToAll { event: OutboundWsEvent::ServerMessage(left_msg) });
                    let infos = self.current_infos();
                    out.push(Delivery::ToAll { event: OutboundWsEvent::PlayerList(infos) });
                    proof {
                        assert(final(out)@.len() == k1 + 2);
                        assert(final(out)@.subrange(0, k1) =~= mid);
                    }
                    false
                }
            },
        }
    }

    /// Installs an uploaded round: only the current host may start one, and
    /// only while no round is active; on success the room learns the new
    /// image's dimensions and masked answer hint.
    pub fn upload_round(&mut self, private_id: &String, round: Round, out: &mut Vec<Delivery>)
        -> (r: Result<(), EventError>)
        requires
            old(self).wf(),
        ensures
            final(self).wf(),
            final(self).id == old(self).id,
            final(self).players@ == old(self).players@,
            final(self).cleanup_armed == old(self).cleanup_armed,
            !has_pid(old(self).players@, private_id@) ==> r == Err::<(), EventError>(
                EventError::PlayerNotFound,
            ) && *final(self) == *old(self) && final(out)@ == old(out)@,
            forall|i: int|
                is_first_match(old(self).players@, private_id@, i) ==> {
                    let s = old(self).players@;
                    if !s[i].info.is_host {
                        r == Err::<(), EventError>(EventError::NotHost) && *final(self) == *old(
                            self,
                        ) && final(out)@ == old(out)@
                    } else if old(self).round is Some {
                        r == Err::<(), EventError>(EventError::RoundAlreadyActive) && *final(self)
                            == *old(self) && final(out)@ == old(out)@
                    } else {
                        &&& r == Ok::<(), EventError>(())
                        &&& final(self).round == Some(round)
                        &&& final(out)@.len() == old(out)@.len() + 1
                        &&& final(out)@.subrange(0, old(out)@.len() as int) == old(out)@
                        &&& is_new_image_broadcast(
                            final(out)@.last(),
                            round.image_dimensions,
                            hint_of(round.answer@),
                        )
                    }
                },
    {
        let i = match self.get_player_index(private_id) {
            None => {
                return Err(EventError::PlayerNotFound);
            },
            Some(i) => i,
        };
        if !self.players[i].info.is_host {
            return Err(EventError::NotHost);
        }
        if self.round.is_some() {
            return Err(EventError::RoundAlreadyActive);
        }
        let dimensions = round.image_dimensions;
        let hint = round.answer_hint();
        let installed = self.start_round(round);
        proof {
            assert(installed is Ok);
        }
        out.push(
            Delivery::ToAll {
                event: OutboundWsEvent::NewImage { dimensions, answer_hint: hint },
            },
        );
        proof {
            assert(final(out)@.subrange(0, old(out)@.len() as int) =~= old(out)@);
        }
        Ok(())
    }
}

} // verus!
