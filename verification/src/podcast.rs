//! The session data model: one broadcast instance ("podcast") with a host,
//! an exclusive audio port and the set of connected participants.

use vstd::prelude::*;

verus! {

/// The client-visible description of a session.
#[derive(Clone, Copy, Debug, PartialEq, Eq)]
pub struct PodcastData {
    /// Unique id among all currently-live sessions.
    pub id: u32,
    /// Set exactly once, when the host's control connection completes
    /// handshake; `None` while the session is pending.
    pub active_since: Option<u128>,
    /// Id of the creating participant; fixed for the session's lifetime.
    pub host: u32,
}

/// The query parameter of a session lookup.
#[derive(Clone, Copy, Debug, PartialEq, Eq)]
pub struct PodcastQuery {
    pub id: u32,
}

/// One registered control-channel connection. The open channel itself lives
/// at the transport layer; the registry records which participant holds it.
#[derive(Clone, Copy, Debug, PartialEq, Eq)]
pub struct PodcastWsSession {
    pub client_id: u32,
}

/// One live session: its data, its registered connections and the UDP port
/// reserved exclusively for its audio.
pub struct Podcast {
    pub data: PodcastData,
    pub ws_sessions: Vec<PodcastWsSession>,
    /// Immutable after creation; not held by any other live session.
    pub audio_port: u16,
}

impl Podcast {
    /// At most one registered connection per participant id.
    pub open spec fn wf(self) -> bool {
        forall|i: int, j: int|
            0 <= i < j < self.ws_sessions@.len() ==> self.ws_sessions@[i].client_id
                != self.ws_sessions@[j].client_id
    }

    /// Whether `client_id` holds a registered connection to this session.
    pub open spec fn spec_connected(self, client_id: u32) -> bool {
        exists|i: int|
            0 <= i < self.ws_sessions@.len() && self.ws_sessions@[i].client_id == client_id
    }

    /// The registered connection of `client_id`, if one exists.
    pub fn get_client_session(&self, client_id: u32) -> (r: Option<PodcastWsSession>)
        ensures
            r is Some <==> self.spec_connected(client_id),
            r matches Some(s) ==> s.client_id == client_id,
    {
        let mut i: usize = 0;
        while i < self.ws_sessions.len()
            invariant
                0 <= i <= self.ws_sessions@.len(),
                forall|j: int| 0 <= j < i ==> self.ws_sessions@[j].client_id != client_id,
            decreases self.ws_sessions@.len() - i,
        {
            if self.ws_sessions[i].client_id == client_id {
                return Some(self.ws_sessions[i]);
            }
            i = i + 1;
        }
        None
    }
}

} // verus!
