//! Configuration consumed by the client: the watched streamer names, the
//! credential pair and the inter-cycle delay.
//!
//! Loading and storing this record (a file, the environment) is a
//! collaborator's responsibility; the library only validates it and builds
//! the client from it.

use vstd::prelude::*;

verus! {

/// The client's configuration record.  Every field the construction needs
/// is optional here, so that a partially filled record can be detected and
/// rejected loudly instead of crashing mid-loop.
#[derive(Debug)]
pub struct Config {
    /// Names of the streamers to watch.
    pub streamers: Vec<String>,
    /// Inter-cycle delay in milliseconds; clamped to the pacing floor.
    pub delay: Option<u16>,
    /// The bearer credential.
    pub token: Option<String>,
    /// The client identifier sent with every request.
    pub user_id: Option<String>,
}

impl Default for Config {
    /// An empty watch-list, the default delay, and blank credentials.
    fn default() -> (c: Config)
        ensures
            c.streamers@.len() == 0,
            c.delay == Some(80u16),
            c.token matches Some(t) && t@ == Seq::<char>::empty(),
            c.user_id matches Some(u) && u@ == Seq::<char>::empty(),
    {
        Config {
            streamers: Vec::new(),
            delay: Some(80u16),
            token: Some(String::new()),
            user_id: Some(String::new()),
        }
    }
}

} // verus!
