//! The video player. Playback is not wired to a media library yet: the
//! player accepts a stream and reports success.

use vstd::prelude::*;

verus! {

/// Why playback failed.
pub enum PlayerError {
    /// The media library refused the stream; its message.
    Media(String),
}

/// A video player.
pub struct Player {}

impl Player {
    /// A player, ready to play.
    pub fn new() -> (res: Result<Player, PlayerError>)
        ensures
            res is Ok,
    {
        Ok(Player {})
    }
}

/// Plays a stream URL, sending `headers` with its requests. No player is
/// wired up yet, so every stream is accepted.
pub fn play(
    url: &str,
    title: &str,
    headers: Option<std::collections::HashMap<String, String>>,
) -> (res: Result<(), PlayerError>)
    ensures
        res is Ok,
{
    Ok(())
}

} // verus!
