//! The credential check: two request headers carry a numeric client id and
//! a shared secret, held against a static id-to-secret table. Any missing,
//! malformed or mismatched credential is refused as `Unauthorized`.

use vstd::prelude::*;
use vstd::string::*;

use crate::decimal::spec_parse_u32;
use crate::decimal::parse_u32;
use crate::errors::ApiError;

verus! {

/// Credentials that passed validation.
pub struct Auth {
    pub client_id: u32,
    pub client_secret: String,
}

/// The static table of known clients: one secret per client id.
pub struct AuthTable {
    pub entries: Vec<(u32, String)>,
}

impl AuthTable {
    /// At most one entry per client id.
    pub open spec fn wf(self) -> bool {
        forall|i: int, j: int|
            0 <= i < j < self.entries@.len() ==> self.entries@[i].0 != self.entries@[j].0
    }

    /// Whether the table knows `id`.
    pub open spec fn spec_has(self, id: u32) -> bool {
        exists|i: int| 0 <= i < self.entries@.len() && self.entries@[i].0 == id
    }

    /// The secret of `id`.
    pub open spec fn spec_secret(self, id: u32) -> Seq<char> {
        self.entries@[choose|i: int|
            0 <= i < self.entries@.len() && self.entries@[i].0 == id].1@
    }

    /// An empty table.
    pub fn new() -> (r: AuthTable)
        ensures
            r.wf(),
            r.entries@.len() == 0,
            forall|id: u32| !r.spec_has(id),
    {
        AuthTable { entries: Vec::new() }
    }

    /// Adds a client that the table does not know yet.
    pub fn insert(&mut self, id: u32, secret: String)
        requires
            old(self).wf(),
            !old(self).spec_has(id),
        ensures
            final(self).wf(),
            final(self).spec_has(id),
            final(self).spec_secret(id) == secret@,
            forall|x: u32|
                x != id ==> (final(self).spec_has(x) <==> old(self).spec_has(x)),
            forall|x: u32|
                x != id && old(self).spec_has(x) ==> final(self).spec_secret(x) == old(
                    self,
                ).spec_secret(x),
    {
        let ghost e0 = self.entries@;
        self.entries.push((id, secret));
        proof {
            let e1 = self.entries@;
            let last = e1.len() - 1;
            assert forall|i: int, j: int| 0 <= i < j < e1.len() implies e1[i].0 != e1[j].0 by {
                if j == last && e1[i].0 == id {
                    assert(old(self).spec_has(id));
                }
            }
            assert(e1[last].0 == id && e1[last].1@ == secret@);
            self.lemma_entry_at(id, last);
            assert forall|x: u32| x != id && old(self).spec_has(x) implies self.spec_has(x)
                && self.spec_secret(x) == old(self).spec_secret(x) by {
                let w = choose|w: int| 0 <= w < e0.len() && e0[w].0 == x;
                assert(e1[w] == e0[w]);
                self.lemma_entry_at(x, w);
                old(self).lemma_entry_at(x, w);
            }
            assert forall|x: u32| x != id && self.spec_has(x) implies old(self).spec_has(x) by {
                let w = choose|w: int| 0 <= w < e1.len() && e1[w].0 == x;
                assert(e0[w] == e1[w]);
            }
        }
    }

    /// Under the invariant, any position holding `id` is the position the
    /// secret is read from.
    proof fn lemma_entry_at(self, id: u32, i: int)
        requires
            self.wf(),
            0 <= i < self.entries@.len(),
            self.entries@[i].0 == id,
        ensures
            self.spec_has(id),
            self.spec_secret(id) == self.entries@[i].1@,
    {
        let j = choose|j: int| 0 <= j < self.entries@.len() && self.entries@[j].0 == id;
        if i != j {
            assert(self.entries@[i].0 != self.entries@[j].0);
        }
    }

    /// The secret the table holds for `id`, if it knows `id`.
    pub fn secret_of(&self, id: u32) -> (r: Option<&String>)
        requires
            self.wf(),
        ensures
            r is Some <==> self.spec_has(id),
            r matches Some(s) ==> s@ == self.spec_secret(id),
    {
        let mut i: usize = 0;
        while i < self.entries.len()
            invariant
                self.wf(),
                0 <= i <= self.entries@.len(),
                forall|j: int| 0 <= j < i ==> self.entries@[j].0 != id,
            decreases self.entries@.len() - i,
        {
            if self.entries[i].0 == id {
                proof {
                    self.lemma_entry_at(id, i as int);
                }
                return Some(&self.entries[i].1);
            }
            i = i + 1;
        }
        None
    }
}

/// What the credential check decides, given the table and the two header
/// values: the client id on success, `Unauthorized` on any missing or
/// malformed header, unknown id, or wrong secret.
pub open spec fn spec_validate(
    t: AuthTable,
    id_hdr: Option<Seq<char>>,
    secret_hdr: Option<Seq<char>>,
) -> Result<u32, ApiError> {
    match (id_hdr, secret_hdr) {
        (Some(ids), Some(sec)) => match spec_parse_u32(ids) {
            Some(n) => if t.spec_has(n) && t.spec_secret(n) == sec {
                Ok(n)
            } else {
                Err(ApiError::Unauthorized)
            },
            None => Err(ApiError::Unauthorized),
        },
        _ => Err(ApiError::Unauthorized),
    }
}

/// Checks the two credential headers against the table. The transport
/// layer hands the raw header values over as plain strings; a header it
/// could not read at all arrives as `None`.
pub fn validate_authentication_data(
    table: &AuthTable,
    client_id: Option<&String>,
    client_secret: Option<&String>,
) -> (r: Result<Auth, ApiError>)
    requires
        table.wf(),
    ensures
        ({
            let ids = match client_id {
                Some(s) => Some(s@),
                None => None,
            };
            let secs = match client_secret {
                Some(s) => Some(s@),
                None => None,
            };
            &&& (r is Ok <==> spec_validate(*table, ids, secs) is Ok)
            &&& (r matches Ok(a) ==> spec_validate(*table, ids, secs) == Ok::<u32, ApiError>(
                a.client_id,
            ) && Some(a.client_secret@) == secs)
            &&& (r matches Err(e) ==> spec_validate(*table, ids, secs) == Err::<u32, ApiError>(e))
        }),
{
    let (id_hdr, secret_hdr) = match (client_id, client_secret) {
        (Some(i), Some(s)) => (i, s),
        _ => {
            return Err(ApiError::Unauthorized);
        },
    };
    let n = match parse_u32(id_hdr.as_str()) {
        Some(n) => n,
        None => {
            return Err(ApiError::Unauthorized);
        },
    };
    match table.secret_of(n) {
        Some(stored) => {
            if *stored == *secret_hdr {
                Ok(Auth { client_id: n, client_secret: secret_hdr.clone() })
            } else {
                Err(ApiError::Unauthorized)
            }
        },
        None => Err(ApiError::Unauthorized),
    }
}

/// Law: a well-formed id header with a wrong secret is always refused as
/// `Unauthorized`, whether or not the table knows the id.
pub proof fn lemma_wrong_secret_unauthorized(t: AuthTable, id_hdr: Seq<char>, secret_hdr: Seq<char>)
    requires
        spec_parse_u32(id_hdr) matches Some(n) && (!t.spec_has(n) || t.spec_secret(n)
            != secret_hdr),
    ensures
        spec_validate(t, Some(id_hdr), Some(secret_hdr)) == Err::<u32, ApiError>(
            ApiError::Unauthorized,
        ),
{
}

} // verus!
