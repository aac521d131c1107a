//! How text adapters treat malformed or unencodable data.
use vstd::prelude::*;

verus! {

/// Controls how text adapters handle malformed or unencodable data.
#[derive(Clone, Copy, Debug, Eq, Hash, PartialEq, Structural)]
pub enum CodingErrorPolicy {
    /// Reject malformed input bytes or unencodable Unicode text.
    Strict,
    /// Replace malformed input bytes or unencodable Unicode text.
    Replace,
}

impl Default for CodingErrorPolicy {
    /// The default policy is strict.
    fn default() -> (policy: Self)
        ensures
            policy == CodingErrorPolicy::Strict,
    {
        CodingErrorPolicy::Strict
    }
}

} // verus!
