//! The application context: the static credential table and the session
//! registry, handed to every request handler. The transport layer wraps
//! the whole context in one exclusion mechanism; every library operation
//! on it is short and non-blocking, so the exclusion is never held across
//! a suspension.

use vstd::prelude::*;
use vstd::string::*;

use crate::auth::AuthTable;
use crate::registry::Registry;

verus! {

/// Everything a request handler needs: who may call, and which sessions
/// are live.
pub struct App {
    pub authentication: AuthTable,
    pub podcasts: Registry,
}

impl App {
    /// A fresh context: the static id-to-secret table of known clients and
    /// an empty registry.
    pub fn new() -> (a: App)
        ensures
            a.authentication.wf(),
            a.podcasts.wf(),
            a.podcasts.sessions@.len() == 0,
            a.authentication.spec_has(123) && a.authentication.spec_secret(123) == "123"@,
            a.authentication.spec_has(345) && a.authentication.spec_secret(345) == "345"@,
            forall|id: u32| id != 123 && id != 345 ==> !a.authentication.spec_has(id),
    {
        let mut auth = AuthTable::new();
        auth.insert(123, String::from_str("123"));
        auth.insert(345, String::from_str("345"));
        App { authentication: auth, podcasts: Registry::new() }
    }
}

} // verus!
