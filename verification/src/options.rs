//! Configuration of an intercepted service.

use vstd::prelude::*;

verus! {

/// Name of the header that carries an inbound trace identifier.
#[derive(Debug, Clone)]
pub struct Header(pub String);

/// Settings copied into every intercepted call.
#[derive(Debug, Clone)]
pub struct Options {
    /// Header consulted for an inbound trace identifier.
    pub header: Header,
    /// Reserved switch for an alternate identity format.
    pub verbose_name: bool,
}

impl Header {
    /// The header name used when none is configured.
    pub open spec fn default_name() -> Seq<char> {
        "x-trace-id"@
    }
}

impl Default for Header {
    fn default() -> (header: Self)
        ensures
            header.0@ == Header::default_name(),
    {
        Header("x-trace-id".to_owned())
    }
}

impl Default for Options {
    fn default() -> (options: Self)
        ensures
            options.header.0@ == Header::default_name(),
            !options.verbose_name,
    {
        Options { header: Header::default(), verbose_name: false }
    }
}

} // verus!
