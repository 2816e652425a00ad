//! The Player trait must be implemented by every player
use vstd::prelude::*;

use super::{action::Action, context::Context, orientation::Orientation};

verus! {

pub type Avatar = char;

pub type PlayerId = u8;

/// An invalid player details instance
pub open spec fn invalid_player_spec() -> Details {
    Details { avatar: ' ', alive: false, id: 0, orientation: Orientation::North }
}

/// An invalid player details instance: it stands for "no player" in a cell.
pub fn invalid_player() -> (r: Details)
    ensures
        r == invalid_player_spec(),
{
    Details { avatar: ' ', alive: false, id: 0, orientation: Orientation::North }
}

/// Public trait that players need to implement, in order for the game engine
/// to be able to interact with the player.
pub trait Player {
    /// Implement this method if and only if you need to perform expensive and
    /// potentially failing initialization.
    ///
    /// The return value should indicate the initialization success.
    fn initialized(&mut self) -> (r: bool)
        default_ensures
            r,
    {
        true
    }

    /// This is the player's turn to fight.
    ///
    /// The changes performed by the game engine are provided in the `context`.
    fn act(&mut self, context: Context) -> Action;

    /// Returns the player's name
    fn name(&self) -> String;

    /// This indicates whether the player is ready for battle or not.
    fn is_ready(&self) -> (r: bool)
        default_ensures
            !r,
    {
        false
    }
}

/// Defines the player id type
#[derive(Clone, Copy, Debug, Hash, PartialEq, Eq, PartialOrd, Ord, Structural)]
pub struct Details {
    pub avatar: Avatar,
    pub alive: bool,
    pub id: PlayerId,
    pub orientation: Orientation,
}

impl Details {
    /// Details of a living player; the id 0 is reserved for `INVALID_PLAYER`.
    pub fn new(avatar: Avatar, id: PlayerId) -> (r: Self)
        requires
            id != 0,
        ensures
            r == (Details { avatar, alive: true, id, orientation: Orientation::North }),
    {
        Self { avatar, alive: true, id, orientation: Orientation::North }
    }
}

} // verus!
