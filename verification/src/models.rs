//! The outward-facing wire model: the shapes of the versions and download
//! answers, and the two fixed discovery documents.

use vstd::prelude::*;

verus! {

use vstd::string::StringExecFns;

/// One platform of one listed version.
pub struct VersionPlatform {
    pub os: String,
    pub arch: String,
}

/// One listed version with its protocols and platforms.
pub struct Version {
    pub version: String,
    pub protocols: Vec<String>,
    pub platforms: Vec<VersionPlatform>,
}

/// The answer to a version-listing request.
pub struct VersionsResponse {
    pub id: String,
    pub versions: Vec<Version>,
}

/// The answer to a download request: the resolved artifact.
#[derive(Clone)]
pub struct DownloadResponse {
    pub protocols: Vec<String>,
    pub os: String,
    pub arch: String,
    pub filename: String,
    pub download_url: String,
    pub shasums_url: String,
    pub shasums_signature_url: String,
    pub shasum: String,
    pub signing_keys: SigningKey,
}

/// The signing keys block of a download answer.
#[derive(Clone)]
pub struct SigningKey {
    pub gpg_public_keys: Vec<GpgPublicKey>,
}

/// One GPG public key.
#[derive(Clone)]
pub struct GpgPublicKey {
    pub key_id: String,
    pub ascii_armor: String,
}

/// The liveness document.
pub struct Root {
    pub ok: bool,
}

/// The discovery document.
pub struct WellKnown {
    pub providers_v1: String,
}

impl Clone for VersionPlatform {
    fn clone(&self) -> (r: Self)
        ensures
            r.os@ == self.os@,
            r.arch@ == self.arch@,
    {
        VersionPlatform { os: self.os.clone(), arch: self.arch.clone() }
    }
}

/// The liveness answer: always `ok`.
pub fn root_value() -> (r: Root)
    ensures
        r.ok,
{
    Root { ok: true }
}

/// The discovery answer: the fixed base path of the provider protocol.
pub fn well_known_value() -> (r: WellKnown)
    ensures
        r.providers_v1@ == "/terraform/providers/v1/"@,
{
    WellKnown { providers_v1: String::from_str("/terraform/providers/v1/") }
}

} // verus!
