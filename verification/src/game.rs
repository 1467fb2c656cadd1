//! The supported game titles and their capabilities.

use vstd::prelude::*;

verus! {

/// A supported game title. Newer engine versions additionally support
/// "light" plugins (the `esl` extension).
#[derive(Clone, Copy, PartialEq, Eq, Structural, Debug)]
pub enum GameType {
    Morrowind,
    Oblivion,
    Skyrim,
    SkyrimSE,
    SkyrimVR,
    Fallout3,
    FalloutNV,
    Fallout4,
    Fallout4VR,
}

impl GameType {
    /// Whether this game supports light (`esl`) plugins.
    pub open spec fn spec_supports_light_plugins(self) -> bool {
        match self {
            GameType::SkyrimSE => true,
            GameType::SkyrimVR => true,
            GameType::Fallout4 => true,
            GameType::Fallout4VR => true,
            _ => false,
        }
    }

    /// Whether this game supports light (`esl`) plugins.
    #[verifier::when_used_as_spec(spec_supports_light_plugins)]
    pub fn supports_light_plugins(self) -> (r: bool)
        ensures
            r == self.spec_supports_light_plugins(),
    {
        match self {
            GameType::SkyrimSE => true,
            GameType::SkyrimVR => true,
            GameType::Fallout4 => true,
            GameType::Fallout4VR => true,
            _ => false,
        }
    }
}

} // verus!
