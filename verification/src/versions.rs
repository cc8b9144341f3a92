//! The version resolver: backend dispatch by configured kind, the versions
//! cache key, and the shaping of the versions answer (where, and only
//! where, a tag's leading `v` run is stripped for display).

use vstd::prelude::*;

verus! {

use crate::RegistryError;
use crate::conf::{ConfigurationProvider, ProviderModel, spec_env_allow_list, pairs_view};
use crate::models::{Version, VersionPlatform, VersionsResponse};
use crate::render::hb_render;
use crate::text::{strip_leading, strip_leading_chars, str_eq_str, views_of};
use crate::{github, gitlab};
use vstd::string::StringExecFns;

/// The two supported release-hosting flavors.
#[derive(Clone, Copy, Debug, PartialEq, Eq, Structural)]
pub enum BackendKind {
    Github,
    Gitlab,
}

/// The backend selected by a configured kind string, if any.
pub open spec fn spec_kind_of(s: Seq<char>) -> Option<BackendKind> {
    if s == "github"@ {
        Some(BackendKind::Github)
    } else if s == "gitlab"@ {
        Some(BackendKind::Gitlab)
    } else {
        None
    }
}

/// Parses a configured version-source kind.
pub fn kind_of(s: &str) -> (k: Option<BackendKind>)
    ensures
        k == spec_kind_of(s@),
{
    if str_eq_str(s, "github") {
        Some(BackendKind::Github)
    } else if str_eq_str(s, "gitlab") {
        Some(BackendKind::Gitlab)
    } else {
        None
    }
}

/// One upstream GET, described as plain data: the URL and the headers to
/// attach.
pub struct UpstreamRequest {
    pub url: String,
    pub headers: Vec<(String, String)>,
}

/// The request a provider's version listing takes, as a function of the
/// provider and the allow-listed template context `ctx`: dispatched on the
/// configured kind, failing on an unknown kind or an unrenderable
/// credential template.
pub open spec fn spec_versions_request(p: ProviderModel, ctx: Seq<(Seq<char>, Seq<char>)>) -> Result<
    (Seq<char>, Seq<(Seq<char>, Seq<char>)>),
    RegistryError,
> {
    match spec_kind_of(p.version.kind) {
        None => Err(RegistryError::UnknownProviderKind),
        Some(k) => match hb_render(p.version.token, ctx) {
            None => Err(RegistryError::Template),
            Some(tok) => Ok(
                if k == BackendKind::Github {
                    (
                        p.version.uri,
                        seq![("Authorization"@, "Token "@ + tok), ("User-Agent"@, "terustry"@)],
                    )
                } else {
                    (p.version.uri + "?per_page=100"@, seq![("PRIVATE-TOKEN"@, tok)])
                },
            ),
        },
    }
}

/// Dispatches to the backend selected by the provider's configured kind and
/// builds its listing request; `UnknownProviderKind` for any other kind.
pub fn build_versions_request(provider: &ConfigurationProvider, env: &Vec<(String, String)>) -> (r:
    Result<UpstreamRequest, RegistryError>)
    ensures
        ({
            let s = spec_versions_request(provider@, spec_env_allow_list(env@));
            match r {
                Ok(req) => s == Ok::<(Seq<char>, Seq<(Seq<char>, Seq<char>)>), RegistryError>(
                    (req.url@, pairs_view(req.headers@)),
                ),
                Err(e) => s == Err::<(Seq<char>, Seq<(Seq<char>, Seq<char>)>), RegistryError>(e),
            }
        }),
{
    match kind_of(provider.version.kind.as_str()) {
        None => Err(RegistryError::UnknownProviderKind),
        Some(BackendKind::Github) => github::versions_request(provider, env),
        Some(BackendKind::Gitlab) => gitlab::versions_request(provider, env),
    }
}

/// The versions-cache key of a provider: its raw catalog name under a fixed
/// prefix.
pub open spec fn spec_version_key(name: Seq<char>) -> Seq<char> {
    "get_version_"@ + name
}

/// Builds the versions-cache key for a provider name.
pub fn version_cache_key(name: &str) -> (k: String)
    ensures
        k@ == spec_version_key(name@),
{
    let mut k = String::from_str("get_version_");
    k.append(name);
    k
}

/// What one listed version must look like: the tag with its leading `v` run
/// stripped for display, and the provider's protocols and platforms.
pub open spec fn version_entry_ok(v: Version, p: ProviderModel, tag: Seq<char>) -> bool {
    &&& v.version@ == strip_leading(tag, 'v')
    &&& views_of(v.protocols@) == p.protocols
    &&& v.platforms@.len() == p.binaries.len()
    &&& forall|j: int|
        0 <= j < p.binaries.len() ==> (#[trigger] v.platforms@[j]).os@ == p.binaries[j].os
            && v.platforms@[j].arch@ == p.binaries[j].arch
}

/// Shapes the versions answer from the raw upstream tags: one entry per
/// tag, upstream order preserved, each showing the tag without its leading
/// `v` run.  Only the displayed version is stripped; cache keys and
/// upstream requests always carry raw values.
pub fn build_versions_response(provider: &ConfigurationProvider, tags: &Vec<String>) -> (r:
    VersionsResponse)
    ensures
        r.id@ == provider@.name,
        r.versions@.len() == tags@.len(),
        forall|i: int|
            0 <= i < tags@.len() ==> version_entry_ok(
                #[trigger] r.versions@[i],
                provider@,
                tags@[i]@,
            ),
{
    let mut versions: Vec<Version> = Vec::new();
    let mut i: usize = 0;
    while i < tags.len()
        invariant
            i <= tags@.len(),
            versions@.len() == i,
            forall|ii: int|
                0 <= ii < i ==> version_entry_ok(#[trigger] versions@[ii], provider@, tags@[ii]@),
        decreases tags@.len() - i,
    {
        let mut platforms: Vec<VersionPlatform> = Vec::new();
        let mut j: usize = 0;
        while j < provider.binaries.len()
            invariant
                j <= provider.binaries@.len(),
                platforms@.len() == j,
                forall|jj: int|
                    0 <= jj < j ==> (#[trigger] platforms@[jj]).os@ == provider@.binaries[jj].os
                        && platforms@[jj].arch@ == provider@.binaries[jj].arch,
            decreases provider.binaries@.len() - j,
        {
            platforms.push(
                VersionPlatform {
                    os: provider.binaries[j].os.clone(),
                    arch: provider.binaries[j].arch.clone(),
                },
            );
            j = j + 1;
        }
        let protos = provider.protocols.clone();
        proof {
            assert(views_of(protos@) =~= provider@.protocols);
        }
        let v = Version {
            version: strip_leading_chars(tags[i].as_str(), 'v'),
            protocols: protos,
            platforms,
        };
        versions.push(v);
        i = i + 1;
    }
    VersionsResponse { id: provider.name.clone(), versions }
}

} // verus!
