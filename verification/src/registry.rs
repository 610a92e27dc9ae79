//! The session registry: the authoritative store of all currently-live
//! sessions. Its invariant is the heart of the subsystem: no two live
//! sessions share an id or an audio port. Callers serialize access through
//! one exclusion mechanism around the whole registry; every operation here
//! is short and non-blocking.

use vstd::prelude::*;

use crate::errors::ApiError;
use crate::podcast::{Podcast, PodcastData, PodcastWsSession};
use rand::Rng;

verus! {

/// How many fresh random ids are drawn before id generation gives up with
/// `Exhausted`; a collision streak this long is practically unreachable.
pub const MAX_ID_ATTEMPTS: u32 = 100;

/// No two sessions of `s` share an id or an audio port, and each session is
/// itself well-formed.
pub open spec fn wf_sessions(s: Seq<Podcast>) -> bool {
    &&& forall|i: int, j: int|
        0 <= i < j < s.len() ==> s[i].data.id != s[j].data.id && s[i].audio_port
            != s[j].audio_port
    &&& forall|i: int| 0 <= i < s.len() ==> s[i].wf()
}

/// The store of live sessions, keyed by session id.
pub struct Registry {
    pub sessions: Vec<Podcast>,
}

impl Registry {
    /// The registry invariant: unique ids, unique audio ports, well-formed
    /// sessions.
    pub open spec fn wf(self) -> bool {
        wf_sessions(self.sessions@)
    }

    /// Whether a live session carries `id`.
    pub open spec fn spec_has(self, id: u32) -> bool {
        exists|i: int| 0 <= i < self.sessions@.len() && self.sessions@[i].data.id == id
    }

    /// The position of the session carrying `id`.
    pub open spec fn spec_index_of(self, id: u32) -> int {
        choose|i: int| 0 <= i < self.sessions@.len() && self.sessions@[i].data.id == id
    }

    /// The session carrying `id`.
    pub open spec fn spec_get(self, id: u32) -> Podcast {
        self.sessions@[self.spec_index_of(id)]
    }

    /// Under the invariant, any position holding `id` is the position of
    /// `id`.
    pub proof fn lemma_index_of(self, id: u32, i: int)
        requires
            self.wf(),
            0 <= i < self.sessions@.len(),
            self.sessions@[i].data.id == id,
        ensures
            self.spec_has(id),
            self.spec_index_of(id) == i,
            self.spec_get(id) == self.sessions@[i],
    {
        let j = self.spec_index_of(id);
        if i != j {
            assert(self.sessions@[i].data.id != self.sessions@[j].data.id);
        }
    }

    /// An empty registry.
    pub fn new() -> (r: Registry)
        ensures
            r.wf(),
            r.sessions@.len() == 0,
    {
        Registry { sessions: Vec::new() }
    }

    /// The position of the session carrying `id`, if one is live.
    pub fn find(&self, id: u32) -> (r: Option<usize>)
        requires
            self.wf(),
        ensures
            r is Some <==> self.spec_has(id),
            r matches Some(i) ==> 0 <= i < self.sessions@.len() && self.sessions@[i as int].data.id
                == id && self.spec_index_of(id) == i,
    {
        let mut i: usize = 0;
        while i < self.sessions.len()
            invariant
                self.wf(),
                0 <= i <= self.sessions@.len(),
                forall|j: int| 0 <= j < i ==> self.sessions@[j].data.id != id,
            decreases self.sessions@.len() - i,
        {
            if self.sessions[i].data.id == id {
                proof {
                    self.lemma_index_of(id, i as int);
                }
                return Some(i);
            }
            i = i + 1;
        }
        None
    }

    /// Whether a live session carries `id`.
    pub fn contains(&self, id: u32) -> (r: bool)
        requires
            self.wf(),
        ensures
            r == self.spec_has(id),
    {
        self.find(id).is_some()
    }

    /// The client-visible data of the session carrying `id`; `None` if no
    /// such session is live. Read access is not host-restricted.
    pub fn get_data(&self, id: u32) -> (r: Option<PodcastData>)
        requires
            self.wf(),
        ensures
            r is Some <==> self.spec_has(id),
            r matches Some(d) ==> d == self.spec_get(id).data,
    {
        match self.find(id) {
            Some(i) => Some(self.sessions[i].data),
            None => None,
        }
    }

    /// The audio ports of all live sessions, in registry order; the port
    /// allocator excludes these from its candidates.
    pub fn occupied_ports(&self) -> (r: Vec<u16>)
        ensures
            r@.len() == self.sessions@.len(),
            forall|i: int| 0 <= i < r@.len() ==> r@[i] == self.sessions@[i].audio_port,
    {
        let mut r: Vec<u16> = Vec::new();
        let mut i: usize = 0;
        while i < self.sessions.len()
            invariant
                0 <= i <= self.sessions@.len(),
                r@.len() == i,
                forall|j: int| 0 <= j < i ==> r@[j] == self.sessions@[j].audio_port,
            decreases self.sessions@.len() - i,
        {
            r.push(self.sessions[i].audio_port);
            i = i + 1;
        }
        r
    }

    /// Inserts a fresh session. The caller supplies an id and a port that no
    /// live session holds, so the invariant is preserved.
    pub fn insert(&mut self, p: Podcast)
        requires
            old(self).wf(),
            p.wf(),
            !old(self).spec_has(p.data.id),
            forall|i: int|
                0 <= i < old(self).sessions@.len() ==> old(self).sessions@[i].audio_port
                    != p.audio_port,
        ensures
            final(self).wf(),
            final(self).sessions@ == old(self).sessions@.push(p),
    {
        proof {
            assert forall|i: int|
                0 <= i < self.sessions@.len() implies self.sessions@[i].data.id
                != p.data.id by {
                if self.sessions@[i].data.id == p.data.id {
                    assert(self.spec_has(p.data.id));
                }
            }
        }
        self.sessions.push(p);
    }

    /// Removes the session carrying `id`; a no-op, and no error, if no such
    /// session is live.
    pub fn remove(&mut self, id: u32)
        requires
            old(self).wf(),
        ensures
            final(self).wf(),
            !old(self).spec_has(id) ==> *final(self) == *old(self),
            old(self).spec_has(id) ==> final(self).sessions@ == old(self).sessions@.remove(
                old(self).spec_index_of(id),
            ),
            !final(self).spec_has(id),
            forall|x: u32| x != id ==> (final(self).spec_has(x) <==> old(self).spec_has(x)),
            forall|x: u32|
                x != id && old(self).spec_has(x) ==> final(self).spec_get(x) == old(
                    self,
                ).spec_get(x),
    {
        let found = self.find(id);
        match found {
            None => {
                proof {
                    assert(self.sessions@ =~= old(self).sessions@);
                }
            },
            Some(i) => {
                self.sessions.remove(i);
                proof {
                    let s0 = old(self).sessions@;
                    let s1 = self.sessions@;
                    let i = i as int;
                    assert(s1 =~= s0.remove(i));
                    // Each surviving position maps back to a distinct old
                    // position, so uniqueness and well-formedness carry over.
                    assert forall|k: int| 0 <= k < s1.len() implies s1[k].wf() by {
                        let k0: int = if k < i {
                            k
                        } else {
                            k + 1
                        };
                        assert(s1[k] == s0[k0]);
                    }
                    assert(self.wf());
                    // The removed position was the only one carrying `id`.
                    assert forall|k: int| 0 <= k < s1.len() implies s1[k].data.id != id by {
                        let k0: int = if k < i {
                            k
                        } else {
                            k + 1
                        };
                        if s0[k0].data.id == id {
                            old(self).lemma_index_of(id, k0);
                        }
                    }
                    // Every other id keeps its session.
                    assert forall|x: u32| x != id && old(self).spec_has(x) implies self.spec_has(x)
                        && self.spec_get(x) == old(self).spec_get(x) by {
                        let j = old(self).spec_index_of(x);
                        let j1: int = if j < i {
                            j
                        } else {
                            j - 1
                        };
                        assert(s1[j1] == s0[j]);
                        self.lemma_index_of(x, j1);
                    }
                    assert forall|x: u32| x != id && self.spec_has(x) implies old(self).spec_has(
                        x,
                    ) by {
                        let j1 = self.spec_index_of(x);
                        let j0: int = if j1 < i {
                            j1
                        } else {
                            j1 + 1
                        };
                        assert(s0[j0].data.id == x);
                    }
                }
            },
        }
    }

    /// Creates a session for `host_id` on the port the allocator bound, and
    /// registers it pending (`active_since` unset). `None` for the port
    /// means the allocator exhausted the whole range: creation fails with
    /// `AllPortsInUse`, and on that or any other failure no partial session
    /// is left registered. On an empty registry with a bound port creation
    /// always succeeds: no id draw can collide there.
    pub fn create_session(&mut self, host_id: u32, bound_port: Option<u16>) -> (r: Result<
        PodcastData,
        ApiError,
    >)
        requires
            old(self).wf(),
            bound_port matches Some(p) ==> forall|i: int|
                0 <= i < old(self).sessions@.len() ==> old(self).sessions@[i].audio_port != p,
        ensures
            final(self).wf(),
            r is Err ==> *final(self) == *old(self),
            bound_port is None <==> r == Err::<PodcastData, ApiError>(ApiError::AllPortsInUse),
            bound_port is Some && r is Err ==> r == Err::<PodcastData, ApiError>(
                ApiError::Exhausted,
            ),
            bound_port is Some && old(self).sessions@.len() == 0 ==> r is Ok,
            r matches Ok(d) ==> ({
                let s1 = final(self).sessions@;
                let s0 = old(self).sessions@;
                &&& bound_port matches Some(p) && s1.last().audio_port == p
                &&& d.host == host_id
                &&& d.active_since is None
                &&& !old(self).spec_has(d.id)
                &&& s1.len() == s0.len() + 1
                &&& s1.subrange(0, s0.len() as int) == s0
                &&& s1.last().data == d
                &&& s1.last().ws_sessions@.len() == 0
                &&& final(self).spec_has(d.id)
                &&& final(self).spec_get(d.id) == s1.last()
            }),
    {
        let port = match bound_port {
            Some(p) => p,
            None => {
                return Err(ApiError::AllPortsInUse);
            },
        };
        let id = match self.generate_id() {
            Ok(id) => id,
            Err(e) => {
                return Err(e);
            },
        };
        let data = PodcastData { id, active_since: None, host: host_id };
        let podcast = Podcast { data, ws_sessions: Vec::new(), audio_port: port };
        self.insert(podcast);
        proof {
            let s1 = self.sessions@;
            assert(s1.subrange(0, old(self).sessions@.len() as int) =~= old(self).sessions@);
            self.lemma_index_of(id, s1.len() - 1);
        }
        Ok(data)
    }

    /// Draws a collision-free session id: a bounded number of random draws,
    /// each redrawn on collision. Only exhausting every draw — practically
    /// unreachable — fails, with `Exhausted`. The draws are random, so
    /// success is owed only where no draw can collide: on an empty
    /// registry the first draw is always free; whatever id comes back is
    /// free.
    pub fn generate_id(&self) -> (r: Result<u32, ApiError>)
        requires
            self.wf(),
        ensures
            r matches Ok(id) ==> !self.spec_has(id),
            r matches Err(e) ==> e == ApiError::Exhausted,
            self.sessions@.len() == 0 ==> r is Ok,
    {
        let mut attempts: u32 = 0;
        while attempts < MAX_ID_ATTEMPTS
            invariant
                self.wf(),
                self.sessions@.len() == 0 ==> attempts == 0,
            decreases MAX_ID_ATTEMPTS - attempts,
        {
            let id = random_u32();
            if !self.contains(id) {
                return Ok(id);
            }
            attempts = attempts + 1;
        }
        Err(ApiError::Exhausted)
    }
}

/// Relies on `rand::thread_rng` and `rand::Rng::gen`: a fresh random value.
/// Nothing is assumed about which value comes back.
#[verifier::external_body]
fn random_u32() -> u32 {
    rand::thread_rng().gen()
}

/// Law: among the live sessions of a well-formed registry, no two hold the
/// same id or the same audio port.
pub proof fn lemma_sessions_unique(r: Registry, i: int, j: int)
    requires
        r.wf(),
        0 <= i < r.sessions@.len(),
        0 <= j < r.sessions@.len(),
        i != j,
    ensures
        r.sessions@[i].data.id != r.sessions@[j].data.id,
        r.sessions@[i].audio_port != r.sessions@[j].audio_port,
{
}

} // verus!
