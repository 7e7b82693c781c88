//! The scraper's command-line settings.
use vstd::prelude::*;
use crate::text::owned;

verus! {

/// The Kafka host used when none is given.
pub const DEFAULT_HOST: &'static str = "localhost";

/// The Kafka port used when none is given.
pub const DEFAULT_PORT: &'static str = "9092";

/// The Kafka host and port to use: those given, or the defaults.
pub fn host_and_port(host: Option<String>, port: Option<String>) -> (r: (String, String))
    ensures
        r.0@ == (match host {
            Some(h) => h@,
            None => DEFAULT_HOST@,
        }),
        r.1@ == (match port {
            Some(p) => p@,
            None => DEFAULT_PORT@,
        }),
{
    let h = match host {
        Some(h) => h,
        None => owned(DEFAULT_HOST),
    };
    let p = match port {
        Some(p) => p,
        None => owned(DEFAULT_PORT),
    };
    (h, p)
}

} // verus!
