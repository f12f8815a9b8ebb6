use vstd::prelude::*;

verus! {

/// Process configuration.  The surrounding program fills it from the
/// environment; the library only carries the values.
#[derive(Debug, Clone)]
pub struct Config {
    pub host: String,
    pub port: String,
    pub statsd_host: String,
    pub statsd_port: String,
}

} // verus!
