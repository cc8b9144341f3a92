//! A Terraform provider registry mirror: resolves provider versions and
//! downloadable artifacts from upstream release APIs, with single-flight,
//! time-bounded caching in front of both resolvers.

use vstd::prelude::*;

pub mod artifacts;
pub mod cache;
pub mod checksum;
pub mod conf;
pub mod github;
pub mod gitlab;
pub mod models;
pub mod render;
pub mod text;
pub mod versions;

verus! {

/// The error taxonomy of the registry core.
#[derive(Clone, Copy, Debug, PartialEq, Eq, Structural)]
pub enum RegistryError {
    /// No provider with the requested `namespace/name` key is configured.
    UnknownProvider,
    /// The provider's configured version-source kind is not a supported backend.
    UnknownProviderKind,
    /// A URL or credential template could not be rendered.
    Template,
    /// The remote API answered with a non-success status or a transport failure.
    Upstream,
    /// The remote API's answer could not be parsed into the expected
    /// list-of-releases shape.
    Protocol,
    /// No line of the checksum manifest mentions the requested platform.
    LineNotFound,
    /// The matching manifest line holds no 64-character digest token.
    ChecksumNotParsable,
    /// A shared single-flight computation failed; reported to all waiters.
    CacheComputation,
}

} // verus!
