//! Stand-alone statements of the engine's guiding laws, proved once over the
//! same spec-level transitions that the executable operations promise in
//! their contracts.

use vstd::prelude::*;
use crate::player::Player;
use crate::room::{
    all_guessed, after_mark, cleared, host_index, lemma_host_index_is, one_host, rotated,
    sole_host_at,
};
use crate::text::{hint_of, is_alphanum};

verus! {

/// Removing the host of a populated room promotes exactly the next player in
/// original join order, wrapping to the first slot when the host was last:
/// ending the round rotates the host off the leaver, and the removal then
/// shifts the survivors into place, leaving exactly one host.
pub proof fn lemma_remove_host_promotes_next(s: Seq<Player>, i: int)
    requires
        sole_host_at(s, i),
        s.len() >= 2,
    ensures
        sole_host_at(rotated(cleared(s)).remove(i), if i == s.len() - 1 { 0int } else { i }),
        rotated(cleared(s)).remove(i)[if i == s.len() - 1 { 0int } else { i }].private_id == s[
            if i == s.len() - 1 { 0int } else { i + 1 }
        ].private_id,
{
    let len = s.len() as int;
    lemma_host_index_is(s, i);
    lemma_host_index_is(cleared(s), i);
    let nxt = (i + 1) % len;
    assert((i + 1) % len == if i + 1 == len { 0int } else { i + 1 }) by (nonlinear_arith)
        requires 0 <= i < len;
    let base = rotated(cleared(s));
    assert(sole_host_at(base, nxt));
    if i == len - 1 {
        assert(sole_host_at(base.remove(i), 0));
    } else {
        assert(sole_host_at(base.remove(i), i));
    }
}

/// A guess by the non-host player at `i` completes the round exactly when
/// every other non-host player had already answered: marking one player
/// finishes the set if and only if nobody else was still guessing.
pub proof fn lemma_round_ends_exactly_when_all_answered(s: Seq<Player>, i: int)
    requires
        0 <= i < s.len(),
        !s[i].info.is_host,
    ensures
        all_guessed(after_mark(s, i)) <==> (forall|j: int|
            0 <= j < s.len() && j != i && !s[j].info.is_host ==> s[j].info.has_answer),
{
    let s1 = after_mark(s, i);
    assert(s1[i].info.has_answer);
    assert forall|j: int| 0 <= j < s.len() && j != i implies s1[j] == s[j] by {}
}

/// Rotation moves the host exactly one step in join order and changes
/// nothing else about any player.
pub proof fn lemma_rotation_moves_host_once(s: Seq<Player>)
    requires
        s.len() > 0,
        one_host(s),
    ensures
        one_host(rotated(s)),
        host_index(rotated(s)) == (host_index(s) + 1) % (s.len() as int),
        forall|j: int|
            0 <= j < s.len() ==> rotated(s)[j].private_id == s[j].private_id && rotated(
                s,
            )[j].info.has_answer == s[j].info.has_answer,
{
    let len = s.len() as int;
    let h = host_index(s);
    assert(sole_host_at(s, h));
    assert(0 <= (h + 1) % len < len) by (nonlinear_arith)
        requires 0 <= h < len;
    let nxt = (h + 1) % len;
    assert(rotated(s)[nxt].info.is_host);
    assert forall|j: int| 0 <= j < len && j != nxt implies !rotated(s)[j].info.is_host by {
        assert(rotated(s)[j] == crate::room::set_host(s[j], false));
    }
    assert(sole_host_at(rotated(s), nxt));
    lemma_host_index_is(rotated(s), nxt);
}

/// The hint has the same length and punctuation pattern as the answer:
/// every alphanumeric character is masked with an underscore, and every
/// other character shows through unchanged.
pub proof fn lemma_hint_masks_answer(answer: Seq<char>)
    ensures
        hint_of(answer).len() == answer.len(),
        forall|i: int| 0 <= i < answer.len() && is_alphanum(answer[i]) ==> hint_of(answer)[i]
            == '_',
        forall|i: int| 0 <= i < answer.len() && !is_alphanum(answer[i]) ==> hint_of(answer)[i]
            == answer[i],
{
}

} // verus!
