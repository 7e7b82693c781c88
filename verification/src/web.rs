//! Plain descriptions of HTTP answers and route tables.
use vstd::prelude::*;

verus! {

/// The status of a permanent redirect ("308 Permanent Redirect").
pub const PERMANENT_REDIRECT: u16 = 308;

/// A redirect answer: its status and the location it points to.
pub struct Redirect {
    pub status: u16,
    pub location: String,
}

/// The routes mounted under one base path, each answering `GET`.
pub struct Mount {
    pub base: String,
    pub routes: Vec<String>,
}

/// A permanent redirect to `location`.
pub fn permanent_redirect(location: &str) -> (r: Redirect)
    ensures
        r.status == PERMANENT_REDIRECT,
        r.location@ == location@,
{
    Redirect { status: PERMANENT_REDIRECT, location: crate::text::owned(location) }
}

} // verus!
