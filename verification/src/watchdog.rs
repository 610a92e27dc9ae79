//! The host watchdog: one deferred eviction check per session, armed at
//! creation. The timer itself runs at the transport layer; once the grace
//! period has passed it hands the decision to `watchdog_fire`, which reads
//! the current state and so tolerates a session that was already removed
//! by other means. Exactly one eviction decision is taken per session.

use vstd::prelude::*;

use crate::registry::Registry;

verus! {

/// How long a pending session waits for its host before it is evicted.
pub const HOST_GRACE_PERIOD_SECS: u64 = 60;

/// The watchdog's eviction decision for session `id`, taken once after the
/// grace period: a session that no longer exists is left alone; a session
/// whose host completed handshake in time (`active_since` set) is never
/// removed; a still-pending session is removed, and only that one.
pub fn watchdog_fire(reg: &mut Registry, id: u32) -> (removed: bool)
    requires
        old(reg).wf(),
    ensures
        final(reg).wf(),
        !old(reg).spec_has(id) ==> *final(reg) == *old(reg) && !removed,
        old(reg).spec_has(id) && old(reg).spec_get(id).data.active_since is Some ==> *final(reg)
            == *old(reg) && !removed,
        old(reg).spec_has(id) && old(reg).spec_get(id).data.active_since is None ==> removed
            && !final(reg).spec_has(id) && (forall|x: u32|
            x != id ==> (final(reg).spec_has(x) <==> old(reg).spec_has(x))) && (forall|x: u32|
            x != id && old(reg).spec_has(x) ==> final(reg).spec_get(x) == old(reg).spec_get(x)),
{
    match reg.find(id) {
        None => false,
        Some(i) => {
            if reg.sessions[i].data.active_since.is_some() {
                false
            } else {
                reg.remove(id);
                true
            }
        },
    }
}

} // verus!
