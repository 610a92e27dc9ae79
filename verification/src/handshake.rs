//! The connection handshake: after the credential check, a participant's
//! attempt against a session is either refused (`NotFound`,
//! `InactiveSession`) or drives the session through activation and
//! connection registration and yields the hello message. Registration and
//! hello construction happen in one exclusive step over the registry, so
//! no concurrent reader can observe the hello delivered while the
//! connection is absent from the session.

use vstd::prelude::*;

use crate::errors::ApiError;
use crate::podcast::{Podcast, PodcastData, PodcastWsSession};
use crate::registry::Registry;
use crate::send_events::{hello_event_json, HelloEvent};

verus! {

/// Whether `client_id` may complete handshake against a session with data
/// `d`: the host always may; a guest only once the session is active.
pub open spec fn spec_can_connect(d: PodcastData, client_id: u32) -> bool {
    client_id == d.host || d.active_since is Some
}

/// The session data after the activation step of a handshake by
/// `client_id` at time `now`: the first successful host connection sets
/// `active_since`, exactly once; every other handshake, host reconnects
/// included, leaves it alone.
pub open spec fn spec_activate(d: PodcastData, client_id: u32, now: u128) -> PodcastData {
    if client_id == d.host && d.active_since is None {
        PodcastData { active_since: Some(now), ..d }
    } else {
        d
    }
}

/// What a successful handshake hands back to the transport layer: the
/// session's audio port and the hello message to deliver. The connection
/// is already registered when this value exists.
pub struct HandshakeReply {
    pub port: u16,
    pub hello: String,
}

/// The pre-upgrade check of a connection attempt: refuses an unknown
/// session with `NotFound` and a guest against an inactive session with
/// `InactiveSession`; everything else may proceed to the handshake.
pub fn check_connect(reg: &Registry, session_id: u32, client_id: u32) -> (r: Result<
    (),
    ApiError,
>)
    requires
        reg.wf(),
    ensures
        !reg.spec_has(session_id) ==> r == Err::<(), ApiError>(ApiError::NotFound),
        reg.spec_has(session_id) && spec_can_connect(reg.spec_get(session_id).data, client_id)
            ==> r is Ok,
        reg.spec_has(session_id) && !spec_can_connect(reg.spec_get(session_id).data, client_id)
            ==> r == Err::<(), ApiError>(ApiError::InactiveSession),
{
    match reg.find(session_id) {
        None => Err(ApiError::NotFound),
        Some(i) => {
            let host = reg.sessions[i].data.host;
            let active = reg.sessions[i].data.active_since.is_some();
            if client_id != host && !active {
                Err(ApiError::InactiveSession)
            } else {
                Ok(())
            }
        },
    }
}

/// Drives one authorized connection attempt through the whole handshake:
/// lookup, the activity check, activation, connection registration, and the
/// hello message. The returned reply only exists once the participant's id
/// is registered in the session, so a peer that has not yet received its
/// hello is never visible as connected to anyone else.
pub fn handshake(reg: &mut Registry, session_id: u32, client_id: u32, now: u128) -> (r: Result<
    HandshakeReply,
    ApiError,
>)
    requires
        old(reg).wf(),
    ensures
        final(reg).wf(),
        r is Err ==> *final(reg) == *old(reg),
        !old(reg).spec_has(session_id) ==> r == Err::<HandshakeReply, ApiError>(ApiError::NotFound),
        old(reg).spec_has(session_id) && !spec_can_connect(
            old(reg).spec_get(session_id).data,
            client_id,
        ) ==> r == Err::<HandshakeReply, ApiError>(ApiError::InactiveSession),
        old(reg).spec_has(session_id) && spec_can_connect(
            old(reg).spec_get(session_id).data,
            client_id,
        ) ==> r is Ok,
        r is Ok ==> ({
            let s_old = old(reg).spec_get(session_id);
            let s_new = final(reg).spec_get(session_id);
            &&& old(reg).spec_has(session_id)
            &&& spec_can_connect(s_old.data, client_id)
            &&& (forall|x: u32| final(reg).spec_has(x) <==> old(reg).spec_has(x))
            &&& (forall|x: u32|
                x != session_id && old(reg).spec_has(x) ==> final(reg).spec_get(x) == old(
                    reg,
                ).spec_get(x))
            &&& s_new.data == spec_activate(s_old.data, client_id, now)
            &&& s_new.audio_port == s_old.audio_port
            &&& (forall|c: u32|
                s_new.spec_connected(c) <==> (s_old.spec_connected(c) || c == client_id))
            &&& (r matches Ok(rep) ==> rep.port == s_old.audio_port && rep.hello@
                == hello_event_json(s_old.audio_port))
        }),
{
    let i = match reg.find(session_id) {
        Some(i) => i,
        None => {
            return Err(ApiError::NotFound);
        },
    };
    let host = reg.sessions[i].data.host;
    let active = reg.sessions[i].data.active_since.is_some();
    if client_id != host && !active {
        return Err(ApiError::InactiveSession);
    }
    let ghost s_old = reg.sessions@[i as int];
    let mut p = reg.sessions.remove(i);
    if client_id == host && p.data.active_since.is_none() {
        p.data.active_since = Some(now);
    }
    let already = p.get_client_session(client_id).is_some();
    if !already {
        p.ws_sessions.push(PodcastWsSession { client_id });
    }
    let port = p.audio_port;
    let hello_event = HelloEvent { port };
    let hello = hello_event.serialize_event();
    let ghost p_new = p;
    reg.sessions.insert(i, p);
    proof {
        let s0 = old(reg).sessions@;
        let s2 = reg.sessions@;
        let ii = i as int;
        assert(s2 =~= s0.update(ii, p_new));
        // The updated session keeps its id and port, and stays well-formed.
        assert(p_new.data.id == s_old.data.id && p_new.audio_port == s_old.audio_port);
        assert forall|c: u32|
            p_new.spec_connected(c) <==> (s_old.spec_connected(c) || c == client_id) by {
            if already {
                assert(s_old.spec_connected(client_id));
            } else {
                assert(p_new.ws_sessions@ == s_old.ws_sessions@.push(
                    PodcastWsSession { client_id },
                ));
                if p_new.spec_connected(c) {
                    let w = choose|w: int|
                        0 <= w < p_new.ws_sessions@.len() && p_new.ws_sessions@[w].client_id == c;
                    if w < s_old.ws_sessions@.len() {
                        assert(s_old.spec_connected(c));
                    }
                }
                if s_old.spec_connected(c) {
                    let w = choose|w: int|
                        0 <= w < s_old.ws_sessions@.len() && s_old.ws_sessions@[w].client_id == c;
                    assert(p_new.ws_sessions@[w].client_id == c);
                }
                if c == client_id {
                    assert(p_new.ws_sessions@.last().client_id == c);
                }
            }
        }
        assert(p_new.wf()) by {
            if !already {
                assert forall|a: int, b: int|
                    0 <= a < b < p_new.ws_sessions@.len() implies p_new.ws_sessions@[a].client_id
                    != p_new.ws_sessions@[b].client_id by {
                    if b == p_new.ws_sessions@.len() - 1 && p_new.ws_sessions@[a].client_id
                        == client_id {
                        assert(s_old.spec_connected(client_id));
                    }
                }
            }
        }
        assert forall|a: int, b: int| 0 <= a < b < s2.len() implies s2[a].data.id != s2[b].data.id
            && s2[a].audio_port != s2[b].audio_port by {
            let pa = if a == ii {
                p_new
            } else {
                s0[a]
            };
            let pb = if b == ii {
                p_new
            } else {
                s0[b]
            };
            assert(s2[a] == pa && s2[b] == pb);
            assert(pa.data.id == s0[a].data.id && pa.audio_port == s0[a].audio_port);
            assert(pb.data.id == s0[b].data.id && pb.audio_port == s0[b].audio_port);
        }
        assert(reg.wf());
        reg.lemma_index_of(session_id, ii);
        old(reg).lemma_index_of(session_id, ii);
        // Sessions other than this one are untouched, by id as well.
        assert forall|x: u32| reg.spec_has(x) <==> old(reg).spec_has(x) by {
            if old(reg).spec_has(x) {
                let w = old(reg).spec_index_of(x);
                assert(s2[w].data.id == x);
            }
            if reg.spec_has(x) {
                let w = reg.spec_index_of(x);
                assert(s0[w].data.id == x);
            }
        }
        assert forall|x: u32| x != session_id && old(reg).spec_has(x) implies reg.spec_get(x)
            == old(reg).spec_get(x) by {
            let w = old(reg).spec_index_of(x);
            old(reg).lemma_index_of(x, w);
            assert(w != ii);
            assert(s2[w] == s0[w]);
            reg.lemma_index_of(x, w);
        }
    }
    Ok(HandshakeReply { port, hello })
}

/// Unregisters `client_id`'s connection from session `session_id` once its
/// receive loop has ended. A session or connection that is already gone is
/// left alone: the operation observes the current state and no-ops, it
/// never errors.
pub fn remove_connection(reg: &mut Registry, session_id: u32, client_id: u32)
    requires
        old(reg).wf(),
    ensures
        final(reg).wf(),
        !old(reg).spec_has(session_id) ==> *final(reg) == *old(reg),
        old(reg).spec_has(session_id) ==> ({
            let s_old = old(reg).spec_get(session_id);
            let s_new = final(reg).spec_get(session_id);
            &&& (forall|x: u32| final(reg).spec_has(x) <==> old(reg).spec_has(x))
            &&& (forall|x: u32|
                x != session_id && old(reg).spec_has(x) ==> final(reg).spec_get(x) == old(
                    reg,
                ).spec_get(x))
            &&& s_new.data == s_old.data
            &&& s_new.audio_port == s_old.audio_port
            &&& (forall|c: u32|
                s_new.spec_connected(c) <==> (s_old.spec_connected(c) && c != client_id))
        }),
{
    let i = match reg.find(session_id) {
        Some(i) => i,
        None => {
            return ;
        },
    };
    let ghost s_old = reg.sessions@[i as int];
    let mut p = reg.sessions.remove(i);
    let mut j: usize = 0;
    while j < p.ws_sessions.len()
        invariant
            0 <= j <= p.ws_sessions@.len(),
            forall|k: int| 0 <= k < j ==> p.ws_sessions@[k].client_id != client_id,
        ensures
            0 <= j <= p.ws_sessions@.len(),
            forall|k: int| 0 <= k < j ==> p.ws_sessions@[k].client_id != client_id,
            j < p.ws_sessions@.len() ==> p.ws_sessions@[j as int].client_id == client_id,
        decreases p.ws_sessions@.len() - j,
    {
        if p.ws_sessions[j].client_id == client_id {
            break ;
        }
        j = j + 1;
    }
    let ghost ws0 = p.ws_sessions@;
    if j < p.ws_sessions.len() {
        p.ws_sessions.remove(j);
        proof {
            let ws1 = p.ws_sessions@;
            let jj = j as int;
            assert(ws1 =~= ws0.remove(jj));
            assert forall|c: u32|
                p.spec_connected(c) <==> (s_old.spec_connected(c) && c != client_id) by {
                if p.spec_connected(c) {
                    let w = choose|w: int| 0 <= w < ws1.len() && ws1[w].client_id == c;
                    let w0: int = if w < jj {
                        w
                    } else {
                        w + 1
                    };
                    assert(ws0[w0].client_id == c);
                    if c == client_id {
                        assert(w0 != jj);
                        assert(ws0[jj].client_id == client_id);
                    }
                }
                if s_old.spec_connected(c) && c != client_id {
                    let w0 = choose|w0: int| 0 <= w0 < ws0.len() && ws0[w0].client_id == c;
                    assert(w0 != jj);
                    let w: int = if w0 < jj {
                        w0
                    } else {
                        w0 - 1
                    };
                    assert(ws1[w] == ws0[w0]);
                }
            }
            assert(p.wf()) by {
                assert forall|a: int, b: int|
                    0 <= a < b < ws1.len() implies ws1[a].client_id != ws1[b].client_id by {
                    let a0: int = if a < jj {
                        a
                    } else {
                        a + 1
                    };
                    let b0: int = if b < jj {
                        b
                    } else {
                        b + 1
                    };
                    assert(ws1[a] == ws0[a0] && ws1[b] == ws0[b0]);
                }
            }
        }
    } else {
        proof {
            assert forall|c: u32|
                p.spec_connected(c) <==> (s_old.spec_connected(c) && c != client_id) by {
                if c == client_id && p.spec_connected(c) {
                    let w = choose|w: int| 0 <= w < ws0.len() && ws0[w].client_id == c;
                    assert(ws0[w].client_id != client_id);
                }
            }
        }
    }
    let ghost p_new = p;
    reg.sessions.insert(i, p);
    proof {
        let s0 = old(reg).sessions@;
        let s2 = reg.sessions@;
        let ii = i as int;
        assert(s2 =~= s0.update(ii, p_new));
        assert(p_new.data == s_old.data && p_new.audio_port == s_old.audio_port);
        assert forall|a: int, b: int| 0 <= a < b < s2.len() implies s2[a].data.id != s2[b].data.id
            && s2[a].audio_port != s2[b].audio_port by {
            let pa = if a == ii {
                p_new
            } else {
                s0[a]
            };
            let pb = if b == ii {
                p_new
            } else {
                s0[b]
            };
            assert(s2[a] == pa && s2[b] == pb);
            assert(pa.data.id == s0[a].data.id && pa.audio_port == s0[a].audio_port);
            assert(pb.data.id == s0[b].data.id && pb.audio_port == s0[b].audio_port);
        }
        assert(reg.wf());
        reg.lemma_index_of(session_id, ii);
        old(reg).lemma_index_of(session_id, ii);
        assert forall|x: u32| reg.spec_has(x) <==> old(reg).spec_has(x) by {
            if old(reg).spec_has(x) {
                let w = old(reg).spec_index_of(x);
                assert(s2[w].data.id == x);
            }
            if reg.spec_has(x) {
                let w = reg.spec_index_of(x);
                assert(s0[w].data.id == x);
            }
        }
        assert forall|x: u32| x != session_id && old(reg).spec_has(x) implies reg.spec_get(x)
            == old(reg).spec_get(x) by {
            let w = old(reg).spec_index_of(x);
            old(reg).lemma_index_of(x, w);
            assert(w != ii);
            assert(s2[w] == s0[w]);
            reg.lemma_index_of(x, w);
        }
    }
}

/// Law: a guest is refused while the session is inactive, and the identical
/// attempt is admitted once the host's own handshake has activated the
/// session.
pub proof fn lemma_guest_after_host_activation(d: PodcastData, guest: u32, now: u128)
    requires
        guest != d.host,
        d.active_since is None,
    ensures
        !spec_can_connect(d, guest),
        spec_can_connect(spec_activate(d, d.host, now), guest),
{
}

/// Law: activation is idempotent — once a session is active, any further
/// handshake, the host's reconnects included, leaves `active_since` as it
/// is.
pub proof fn lemma_activation_idempotent(d: PodcastData, client_id: u32, now: u128)
    requires
        d.active_since is Some,
    ensures
        spec_activate(d, client_id, now) == d,
{
}

} // verus!
