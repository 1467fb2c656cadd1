//! The execution context: the active game, the directory holding its plugin
//! data files, and the location of the companion tool's executable.

use vstd::prelude::*;

use crate::game::GameType;

verus! {

/// Read-only configuration passed into every resolution. The library never
/// mutates it.
pub struct State {
    /// The active game title.
    pub game_type: GameType,
    /// The directory under which the game's plugin data files live.
    pub data_path: String,
    /// The path of the companion tool's own executable, returned verbatim
    /// for the reserved sentinel name.
    pub loot_path: String,
}

impl State {
    /// Builds a context from its three parts.
    pub fn new(game_type: GameType, data_path: String, loot_path: String) -> (r: State)
        ensures
            r.game_type == game_type,
            r.data_path@ == data_path@,
            r.loot_path@ == loot_path@,
    {
        State { game_type, data_path, loot_path }
    }
}

} // verus!
