//! The audio port allocator's candidate selection: a fixed range of loopback
//! UDP ports, scanned in ascending order, minus the ports of live sessions.
//! The bind attempt on each candidate is the transport layer's business;
//! first successful bind wins, and an empty candidate list means the range
//! is exhausted.

use vstd::prelude::*;

verus! {

/// First port of the audio range.
pub const AUDIO_PORT_START: u16 = 42000;

/// One past the last port of the audio range.
pub const AUDIO_PORT_END: u16 = 42100;

/// Whether `p` lies in the audio port range.
pub open spec fn port_in_range(p: u16) -> bool {
    AUDIO_PORT_START <= p < AUDIO_PORT_END
}

/// Whether `v` holds `x`.
fn contains_port(v: &Vec<u16>, x: u16) -> (r: bool)
    ensures
        r == v@.contains(x),
{
    let mut i: usize = 0;
    while i < v.len()
        invariant
            0 <= i <= v@.len(),
            forall|j: int| 0 <= j < i ==> v@[j] != x,
        decreases v@.len() - i,
    {
        if v[i] == x {
            return true;
        }
        i = i + 1;
    }
    false
}

/// The bind candidates: every port of the audio range that no live session
/// occupies, in ascending order. When the whole range is occupied the list
/// is empty, and session creation fails with `AllPortsInUse` before any
/// session is registered.
pub fn free_ports(occupied: &Vec<u16>) -> (r: Vec<u16>)
    ensures
        forall|k: int|
            0 <= k < r@.len() ==> port_in_range(r@[k]) && !occupied@.contains(r@[k]),
        forall|p: u16| port_in_range(p) && !occupied@.contains(p) ==> r@.contains(p),
        forall|k1: int, k2: int| 0 <= k1 < k2 < r@.len() ==> r@[k1] < r@[k2],
        (forall|p: u16| port_in_range(p) ==> occupied@.contains(p)) ==> r@.len() == 0,
{
    let mut r: Vec<u16> = Vec::new();
    let mut p: u16 = AUDIO_PORT_START;
    while p < AUDIO_PORT_END
        invariant
            AUDIO_PORT_START <= p <= AUDIO_PORT_END,
            forall|k: int|
                0 <= k < r@.len() ==> port_in_range(r@[k]) && !occupied@.contains(r@[k])
                    && r@[k] < p,
            forall|q: u16| AUDIO_PORT_START <= q < p && !occupied@.contains(q) ==> r@.contains(q),
            forall|k1: int, k2: int| 0 <= k1 < k2 < r@.len() ==> r@[k1] < r@[k2],
        decreases AUDIO_PORT_END - p,
    {
        let ghost r0 = r@;
        if !contains_port(occupied, p) {
            r.push(p);
        }
        proof {
            assert forall|q: u16|
                AUDIO_PORT_START <= q < p + 1 && !occupied@.contains(q) implies r@.contains(
                q,
            ) by {
                if q == p {
                    assert(r@[r@.len() - 1] == p);
                } else {
                    assert(r0.contains(q));
                    let w = choose|w: int| 0 <= w < r0.len() && r0[w] == q;
                    assert(r@[w] == q);
                }
            }
        }
        p = p + 1;
    }
    proof {
        if (forall|q: u16| port_in_range(q) ==> occupied@.contains(q)) && r@.len() > 0 {
            assert(port_in_range(r@[0]) ==> occupied@.contains(r@[0]));
        }
    }
    r
}

} // verus!
