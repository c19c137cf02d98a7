//! The typed protocol: inbound events from clients, outbound events to
//! clients, and deliveries (an outbound event together with its recipients).
//!
//! The transport layer encodes outbound events as JSON text frames and decodes
//! inbound frames into `InboundWsEvent` values; the engine itself works on the
//! typed values only.

use vstd::prelude::*;
use crate::player::{Player, PlayerInfo};

verus! {

/// A drawing primitive progressively revealing the image. The engine treats
/// it as an opaque value: it is stored, re-broadcast and replayed to
/// latecomers, never interpreted.
#[derive(Clone, Copy, PartialEq, Eq, Debug)]
pub struct Circle {
    pub imgx: u32,
    pub imgy: u32,
    pub center: (i32, i32),
    pub radius: i32,
    pub color: (u8, u8, u8, u8),
}

/// An event sent by a client over its connection.
pub enum InboundWsEvent {
    Circle(Circle),
    ChatMessage(String),
    NewImage { dimensions: (u32, u32), answer: String },
    GiveUp,
    Pass,
    PlayerName(String),
}

/// An event sent by the server to one or more clients.
pub enum OutboundWsEvent {
    Circle(Circle),
    CircleSequence(Vec<Circle>),
    NewImage { dimensions: (u32, u32), answer_hint: String },
    PlayerList(Vec<PlayerInfo>),
    PrivateInfo { private_id: String, info: PlayerInfo },
    ChatMessage { name: String, text: String },
    SecretChatMessage { name: String, text: String },
    ServerMessage(String),
    Answer(String),
}

/// An outbound event paired with its recipients. A `ToPlayer` index refers to
/// the room's player list as it stands once the operation that produced the
/// delivery has completed.
pub enum Delivery {
    ToPlayer { player: usize, event: OutboundWsEvent },
    ToAll { event: OutboundWsEvent },
    ToAllBinary { bytes: Vec<u8> },
}

/// Why an inbound request was rejected. Rejected requests change no state;
/// the transport drops them silently (they are logged, never echoed back).
#[derive(Clone, Copy, PartialEq, Eq, Structural, Debug)]
pub enum EventError {
    EmptyMessage,
    PlayerNotFound,
    NotHost,
    HostCannotGiveUp,
    NoActiveRound,
    RoundInProgress,
    RoundAlreadyActive,
    Unsupported,
}

/// An exact copy of an opaque byte payload.
pub fn clone_bytes(v: &Vec<u8>) -> (r: Vec<u8>)
    ensures
        r@ == v@,
{
    let n = v.len();
    let mut r: Vec<u8> = Vec::new();
    let mut i: usize = 0;
    while i < n
        invariant
            n == v@.len(),
            i <= n,
            r@ == v@.subrange(0, i as int),
        decreases n - i,
    {
        r.push(v[i]);
        i += 1;
        proof {
            assert(r@ =~= v@.subrange(0, i as int));
        }
    }
    proof {
        assert(r@ =~= v@);
    }
    r
}

/// An exact copy of a list of circles.
pub fn clone_circles(v: &Vec<Circle>) -> (r: Vec<Circle>)
    ensures
        r@ == v@,
{
    let n = v.len();
    let mut r: Vec<Circle> = Vec::new();
    let mut i: usize = 0;
    while i < n
        invariant
            n == v@.len(),
            i <= n,
            r@ == v@.subrange(0, i as int),
        decreases n - i,
    {
        r.push(v[i]);
        i += 1;
        proof {
            assert(r@ =~= v@.subrange(0, i as int));
        }
    }
    proof {
        assert(r@ =~= v@);
    }
    r
}

/// The public info of every player, in list order.
pub open spec fn infos_of(s: Seq<Player>) -> Seq<PlayerInfo> {
    Seq::new(s.len(), |i: int| s[i].info)
}

pub open spec fn is_chat_broadcast(d: Delivery, name: Seq<char>, text: Seq<char>) -> bool {
    d matches Delivery::ToAll { event: OutboundWsEvent::ChatMessage { name: n, text: t } }
        && n@ == name && t@ == text
}

pub open spec fn is_server_msg_broadcast(d: Delivery, text: Seq<char>) -> bool {
    d matches Delivery::ToAll { event: OutboundWsEvent::ServerMessage(t) } && t@ == text
}

pub open spec fn is_player_list_broadcast(d: Delivery, infos: Seq<PlayerInfo>) -> bool {
    d matches Delivery::ToAll { event: OutboundWsEvent::PlayerList(ps) } && ps@ == infos
}

pub open spec fn is_circle_broadcast(d: Delivery, c: Circle) -> bool {
    d matches Delivery::ToAll { event: OutboundWsEvent::Circle(c2) } && c2 == c
}

pub open spec fn is_new_image_broadcast(d: Delivery, dims: (u32, u32), hint: Seq<char>) -> bool {
    d matches Delivery::ToAll { event: OutboundWsEvent::NewImage { dimensions, answer_hint } }
        && dimensions == dims && answer_hint@ == hint
}

pub open spec fn is_binary_broadcast(d: Delivery, bytes: Seq<u8>) -> bool {
    d matches Delivery::ToAllBinary { bytes: b } && b@ == bytes
}

pub open spec fn is_answer_to(d: Delivery, i: int, answer: Seq<char>) -> bool {
    d matches Delivery::ToPlayer { player, event: OutboundWsEvent::Answer(t) }
        && player as int == i && t@ == answer
}

pub open spec fn is_secret_chat_to(d: Delivery, i: int, name: Seq<char>, text: Seq<char>) -> bool {
    d matches Delivery::ToPlayer {
        player,
        event: OutboundWsEvent::SecretChatMessage { name: n, text: t },
    } && player as int == i && n@ == name && t@ == text
}

pub open spec fn is_private_info_to(d: Delivery, i: int, pid: Seq<char>, info: PlayerInfo) -> bool {
    d matches Delivery::ToPlayer {
        player,
        event: OutboundWsEvent::PrivateInfo { private_id, info: pi },
    } && player as int == i && private_id@ == pid && pi == info
}

pub open spec fn is_new_image_to(d: Delivery, i: int, dims: (u32, u32), hint: Seq<char>) -> bool {
    d matches Delivery::ToPlayer {
        player,
        event: OutboundWsEvent::NewImage { dimensions, answer_hint },
    } && player as int == i && dimensions == dims && answer_hint@ == hint
}

pub open spec fn is_circle_seq_to(d: Delivery, i: int, circles: Seq<Circle>) -> bool {
    d matches Delivery::ToPlayer { player, event: OutboundWsEvent::CircleSequence(cs) }
        && player as int == i && cs@ == circles
}

} // verus!
