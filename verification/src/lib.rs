//! Resolution of the on-disk location and canonical name of game data-plugin
//! files, for Bethesda-style game mod tooling.
//!
//! Disabled plugins may carry an extra `.ghost` suffix appended by mod
//! managers. This library classifies file extensions as plugin extensions
//! (conditioned on which game is active), appends the ghost suffix
//! reversibly, strips it from filenames when doing so is safe, and maps a
//! data-relative path to a real filesystem path, falling back to the ghosted
//! form when the plain form does not exist.

pub mod game;
pub mod paths;
pub mod state;
pub mod strings;

pub use game::GameType;
pub use state::State;
