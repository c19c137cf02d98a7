//! Players: a private capability token, public info, host and answer flags.

use vstd::prelude::*;
use crate::token::fresh_token;

verus! {

/// Public facing info about a player; safe to broadcast to the whole room.
pub struct PlayerInfo {
    pub name: String,
    pub public_id: String,
    pub is_host: bool,
    pub has_answer: bool,
}

/// A connected player. The private identifier is a capability token shown
/// only to the owning connection.
pub struct Player {
    pub private_id: String,
    pub info: PlayerInfo,
}

impl PlayerInfo {
    /// An exact copy; spelled out so that the copy is known to equal the
    /// original.
    pub fn duplicate(&self) -> (r: PlayerInfo)
        ensures
            r == *self,
    {
        PlayerInfo {
            name: self.name.clone(),
            public_id: self.public_id.clone(),
            is_host: self.is_host,
            has_answer: self.has_answer,
        }
    }
}

impl Player {
    /// A new player with freshly generated identifiers; the answer flag
    /// starts cleared. The identifiers are random tokens, so only their
    /// length is known.
    pub fn new(name: String, is_host: bool) -> (p: Player)
        ensures
            p.info.name == name,
            p.info.is_host == is_host,
            !p.info.has_answer,
            p.private_id@.len() == 36,
            p.info.public_id@.len() == 36,
    {
        let public_id = fresh_token();
        let private_id = fresh_token();
        Player { private_id, info: PlayerInfo { name, public_id, is_host, has_answer: false } }
    }
}

} // verus!
