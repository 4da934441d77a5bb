//! The closed set of interceptor kinds a gateway can be configured with.

use vstd::prelude::*;

verus! {

/// Name of an interceptor kind, as it appears in gateway configuration.
/// Unknown names are a configuration error at startup, so the set is
/// closed.
#[derive(Clone, Copy, PartialEq, Eq, Structural, Debug, Hash)]
pub enum InterceptorName {
    ServerVersion,
    UseFile,
}

impl InterceptorName {
    /// The configuration-file spelling of this name.
    pub fn as_str(&self) -> (s: &'static str)
        ensures
            s@ == self.name_spec(),
    {
        match self {
            InterceptorName::ServerVersion => "server_version",
            InterceptorName::UseFile => "use_file",
        }
    }

    pub open spec fn name_spec(self) -> Seq<char> {
        match self {
            InterceptorName::ServerVersion => "server_version"@,
            InterceptorName::UseFile => "use_file"@,
        }
    }
}

} // verus!
