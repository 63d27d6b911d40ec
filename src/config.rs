//! Server settings and their defaults.

use vstd::prelude::*;

verus! {

/// Fewest players a game can start with.
pub const MIN_PLAYER_COUNT: usize = 2;

/// Most players a lobby takes.
pub const MAX_PLAYER_COUNT: usize = 8;

/// Settings read from the server's configuration file. The engine's own
/// deadlines take precedence; these only pace cooldown-style waits.
#[derive(Debug, Clone, Copy, PartialEq, Eq, Structural)]
pub struct Config {
    pub snap_time_secs: u64,
    pub new_round_timer_secs: u64,
    pub show_all_cooldown: u64,
    pub server_port: u16,
}

/// Default snap time, in seconds.
pub fn snap_time() -> (r: u64)
    ensures
        r == 5,
{
    5
}

/// Default time to confirm a new round, in seconds.
pub fn new_round() -> (r: u64)
    ensures
        r == 60,
{
    60
}

/// Default pause before all cards are shown, in seconds.
pub fn show_all_cooldown() -> (r: u64)
    ensures
        r == 1,
{
    1
}

/// Default port of the game server.
pub fn port() -> (r: u16)
    ensures
        r == 25580,
{
    25580
}

impl Default for Config {
    fn default() -> (r: Config)
        ensures
            r == (Config {
                snap_time_secs: 5,
                new_round_timer_secs: 60,
                show_all_cooldown: 1,
                server_port: 25580,
            }),
    {
        Config {
            snap_time_secs: snap_time(),
            new_round_timer_secs: new_round(),
            show_all_cooldown: show_all_cooldown(),
            server_port: port(),
        }
    }
}

/// A game server and its settings.
pub struct GameServer {
    pub config: Config,
}

impl GameServer {
    /// A server with the settings that were loaded, or the defaults when
    /// loading failed.
    pub fn from_config(loaded: Option<Config>) -> (r: GameServer)
        ensures
            loaded matches Some(c) ==> r.config == c,
            loaded is None ==> r.config == (Config {
                snap_time_secs: 5,
                new_round_timer_secs: 60,
                show_all_cooldown: 1,
                server_port: 25580,
            }),
    {
        let config = match loaded {
            Some(cfg) => cfg,
            None => Config::default(),
        };
        GameServer { config }
    }
}

} // verus!
