//! The client: credentials, pacing parameters, the watch-list store and the
//! suppression window, validated and assembled from a [`Config`].
//!
//! Construction is fail-fast: a missing credential or delay is rejected
//! with an [`Error`] before any cycle runs.  The polling loop itself is the
//! caller's: it drives one [`crate::engine`] cycle at a time, sleeping the
//! configured delay between cycles and the fixed pause between requests.

use vstd::prelude::*;

use crate::config::Config;
use crate::error::Error;
use crate::suppression::SuppressionWindow;
use crate::watchlist::{WatchEntry, WatchListStore};

verus! {

/// The pacing floor, in milliseconds: the least allowed delay between
/// cycles and the fixed pause after every issued request, driven by the
/// platform's published rate limit.
pub const PACING_FLOOR_MILLIS: u64 = 80;

/// The default time-to-live of a suppression mark, in milliseconds.
pub const DEFAULT_SUPPRESSION_TTL_MILLIS: u64 = 30000;

/// A watched streamer, by name.
#[derive(PartialEq, Debug)]
pub struct Streamer {
    pub name: String,
}

impl Clone for Streamer {
    fn clone(&self) -> (r: Self)
        ensures
            r == *self,
    {
        Streamer { name: self.name.clone() }
    }
}

/// The parsed result of one successful status check: the platform's record
/// of the current live session.  The session start is carried as UTC
/// milliseconds, converted from the platform's timestamp at the boundary.
#[derive(Clone, Debug)]
pub struct StreamData {
    pub id: String,
    pub user_id: String,
    pub user_login: String,
    pub user_name: String,
    pub game_id: String,
    pub game_name: String,
    pub stream_type: String,
    pub title: String,
    pub viewer_count: u32,
    pub started_at: i64,
    pub language: String,
    pub thumbnail_url: String,
    pub tags_ids: Option<Vec<String>>,
    pub tags: Option<Vec<String>>,
    pub is_mature: bool,
}

/// The inter-cycle delay after clamping to the pacing floor.
pub open spec fn clamped_delay(d: u16) -> u64 {
    if d < PACING_FLOOR_MILLIS {
        PACING_FLOOR_MILLIS
    } else {
        d as u64
    }
}

/// The watch entry a configured streamer name starts from: alerts enabled,
/// no live session seen yet.
pub open spec fn entry_of_name() -> spec_fn(String) -> WatchEntry {
    |n: String| WatchEntry { identifier: n, alerts_enabled: true, last_live_started_at: 0 }
}

/// The initial watch-list built from the configured streamer names.
pub open spec fn entries_of_names(names: Seq<String>) -> Seq<WatchEntry> {
    names.map_values(entry_of_name())
}

/// The polling client: credentials, pacing, the watch-list store and the
/// suppression window.
pub struct Client {
    /// The client identifier sent with every request.
    pub client_id: String,
    /// The bearer credential.
    pub token: String,
    /// The watch-list source and persistence collaborator.
    pub store: WatchListStore,
    /// The per-instance suppression window.
    pub window: SuppressionWindow,
    /// Delay between check cycles, in milliseconds, at least the pacing
    /// floor.
    pub delay_millis: u64,
}

impl Client {
    /// Validates a configuration and builds the client from it.
    ///
    /// Fails exactly when the client identifier, the credential or the
    /// delay is missing; each failure names what is missing, with codes
    /// `13`, `14` and `15` in that priority order.
    pub fn new(config: Config) -> (r: Result<Client, Error>)
        ensures
            match r {
                Ok(c) => {
                    &&& config.user_id matches Some(u) && c.client_id == u
                    &&& config.token matches Some(t) && c.token == t
                    &&& config.delay matches Some(d) && c.delay_millis == clamped_delay(d)
                    &&& c.store@ == entries_of_names(config.streamers@)
                    &&& c.window.wf()
                    &&& c.window@ == Map::<Seq<char>, i64>::empty()
                    &&& c.window.ttl() == DEFAULT_SUPPRESSION_TTL_MILLIS
                },
                Err(e) => {
                    if config.user_id is None {
                        e.code == 13 && e.description@ == "Missing User ID in Config File!"@
                    } else if config.token is None {
                        e.code == 14 && e.description@ == "Missing User Token in Config File!"@
                    } else {
                        config.delay is None && e.code == 15 && e.description@
                            == "Missing Delay in Config File!"@
                    }
                },
            },
    {
        let Config { streamers, delay, token, user_id } = config;
        let client_id = match user_id {
            Some(u) => u,
            None => {
                return Err(Error::new("Missing User ID in Config File!", 13));
            },
        };
        let token = match token {
            Some(t) => t,
            None => {
                return Err(Error::new("Missing User Token in Config File!", 14));
            },
        };
        let delay = match delay {
            Some(d) => d,
            None => {
                return Err(Error::new("Missing Delay in Config File!", 15));
            },
        };
        let delay_millis: u64 = if (delay as u64) < PACING_FLOOR_MILLIS {
            PACING_FLOOR_MILLIS
        } else {
            delay as u64
        };
        let mut entries: Vec<WatchEntry> = Vec::new();
        let mut i: usize = 0;
        while i < streamers.len()
            invariant
                i <= streamers@.len(),
                entries@ == entries_of_names(streamers@.subrange(0, i as int)),
            decreases streamers@.len() - i,
        {
            entries.push(
                WatchEntry {
                    identifier: streamers[i].clone(),
                    alerts_enabled: true,
                    last_live_started_at: 0,
                },
            );
            proof {
                assert(entries@ =~= entries_of_names(streamers@.subrange(0, i as int + 1)));
            }
            i += 1;
        }
        proof {
            assert(streamers@.subrange(0, streamers@.len() as int) =~= streamers@);
        }
        Ok(
            Client {
                client_id,
                token,
                store: WatchListStore::new(entries),
                window: SuppressionWindow::new(DEFAULT_SUPPRESSION_TTL_MILLIS),
                delay_millis,
            },
        )
    }
}

} // verus!
