//! The artifact resolver: renders the four provider URL templates for a
//! version/platform, extracts the matching digest from the fetched shasums
//! manifest, and assembles the download answer.

use vstd::prelude::*;

verus! {

use crate::RegistryError;
use crate::checksum::{extract, spec_extract};
use crate::conf::{ArtifactModel, ConfigurationArtifact, ConfigurationProvider};
use crate::render::{artifact_ctx, hb_render, render_template, spec_artifact_ctx};
use crate::models::{DownloadResponse, GpgPublicKey, SigningKey};
use crate::text::{has_sub, match_at, views_of};
use vstd::string::StringExecFns;

/// The four templates of a provider, rendered for one version/platform.
pub struct RenderedArtifact {
    pub filename: String,
    pub download_url: String,
    pub shasums_url: String,
    pub shasums_signature_url: String,
}

impl View for RenderedArtifact {
    type V = ArtifactModel;

    open spec fn view(&self) -> ArtifactModel {
        ArtifactModel {
            filename: self.filename@,
            download_url: self.download_url@,
            shasums_url: self.shasums_url@,
            shasums_signature_url: self.shasums_signature_url@,
        }
    }
}

/// What rendering a provider's four templates yields under the three-key
/// context `version`/`os`/`arch`: every template rendered, or `Template`
/// when any of them cannot be.
pub open spec fn spec_render_artifact(
    a: ArtifactModel,
    version: Seq<char>,
    os: Seq<char>,
    arch: Seq<char>,
) -> Result<ArtifactModel, RegistryError> {
    let c = spec_artifact_ctx(version, os, arch);
    if hb_render(a.filename, c) is Some && hb_render(a.download_url, c) is Some && hb_render(
        a.shasums_url,
        c,
    ) is Some && hb_render(a.shasums_signature_url, c) is Some {
        Ok(
            ArtifactModel {
                filename: hb_render(a.filename, c).unwrap(),
                download_url: hb_render(a.download_url, c).unwrap(),
                shasums_url: hb_render(a.shasums_url, c).unwrap(),
                shasums_signature_url: hb_render(a.shasums_signature_url, c).unwrap(),
            },
        )
    } else {
        Err(RegistryError::Template)
    }
}

/// Renders the provider's four artifact templates against the context of
/// exactly three keys: `version`, `os`, `arch`.
pub fn render_artifact_urls(
    artifact: &ConfigurationArtifact,
    version: &str,
    os: &str,
    arch: &str,
) -> (r: Result<RenderedArtifact, RegistryError>)
    ensures
        ({
            let s = spec_render_artifact(artifact@, version@, os@, arch@);
            match r {
                Ok(ra) => s == Ok::<ArtifactModel, RegistryError>(ra@),
                Err(e) => s == Err::<ArtifactModel, RegistryError>(e),
            }
        }),
{
    let ctx = artifact_ctx(version, os, arch);
    let filename = match render_template(artifact.filename.as_str(), &ctx) {
        Some(s) => s,
        None => {
            return Err(RegistryError::Template);
        },
    };
    let download_url = match render_template(artifact.download_url.as_str(), &ctx) {
        Some(s) => s,
        None => {
            return Err(RegistryError::Template);
        },
    };
    let shasums_url = match render_template(artifact.shasums_url.as_str(), &ctx) {
        Some(s) => s,
        None => {
            return Err(RegistryError::Template);
        },
    };
    let shasums_signature_url = match render_template(artifact.shasums_signature_url.as_str(), &ctx)
        {
        Some(s) => s,
        None => {
            return Err(RegistryError::Template);
        },
    };
    Ok(RenderedArtifact { filename, download_url, shasums_url, shasums_signature_url })
}

/// What the assembled download answer must hold, given the provider, the
/// rendered templates, the platform and the digest extracted from the
/// manifest.
pub open spec fn download_response_ok(
    dr: DownloadResponse,
    p: crate::conf::ProviderModel,
    ra: ArtifactModel,
    os: Seq<char>,
    arch: Seq<char>,
    digest: Seq<char>,
) -> bool {
    &&& views_of(dr.protocols@) == p.protocols
    &&& dr.os@ == os
    &&& dr.arch@ == arch
    &&& dr.filename@ == ra.filename
    &&& dr.download_url@ == ra.download_url
    &&& dr.shasums_url@ == ra.shasums_url
    &&& dr.shasums_signature_url@ == ra.shasums_signature_url
    &&& dr.shasum@ == digest
    &&& dr.signing_keys.gpg_public_keys@.len() == 1
    &&& dr.signing_keys.gpg_public_keys@[0].key_id@ == p.signature.key_id
    &&& dr.signing_keys.gpg_public_keys@[0].ascii_armor@ == p.signature.key_armor
}

/// Assembles the download answer from the rendered templates and the
/// fetched shasums manifest: the digest is the one `spec_extract` names for
/// this platform, and extraction failures pass through unchanged.
pub fn assemble_artifact(
    provider: &ConfigurationProvider,
    rendered: RenderedArtifact,
    os: String,
    arch: String,
    shasums_body: &str,
) -> (r: Result<DownloadResponse, RegistryError>)
    ensures
        ({
            match spec_extract(shasums_body@, os@, arch@) {
                Ok(d) => r matches Ok(dr) && download_response_ok(
                    dr,
                    provider@,
                    rendered@,
                    os@,
                    arch@,
                    d,
                ),
                Err(e) => r == Err::<DownloadResponse, RegistryError>(e),
            }
        }),
{
    let shasum = match extract(shasums_body, os.as_str(), arch.as_str()) {
        Ok(d) => d,
        Err(e) => {
            return Err(e);
        },
    };
    let protos = provider.protocols.clone();
    proof {
        assert(views_of(protos@) =~= provider@.protocols);
    }
    let mut keys: Vec<GpgPublicKey> = Vec::new();
    keys.push(
        GpgPublicKey {
            key_id: provider.signature.key_id.clone(),
            ascii_armor: provider.signature.key_armor.clone(),
        },
    );
    Ok(
        DownloadResponse {
            protocols: protos,
            os,
            arch,
            filename: rendered.filename,
            download_url: rendered.download_url,
            shasums_url: rendered.shasums_url,
            shasums_signature_url: rendered.shasums_signature_url,
            shasum,
            signing_keys: SigningKey { gpg_public_keys: keys },
        },
    )
}

/// The artifact-cache key: the raw provider name, version, os and arch
/// joined under a fixed prefix.  The version is the tag as the client sent
/// it — display stripping never reaches cache keys.
pub open spec fn spec_artifact_key(
    name: Seq<char>,
    version: Seq<char>,
    os: Seq<char>,
    arch: Seq<char>,
) -> Seq<char> {
    "get_artifacts_"@ + name + "_"@ + version + "_"@ + os + "_"@ + arch
}

/// Builds the artifact-cache key.
pub fn artifact_cache_key(name: &str, version: &str, os: &str, arch: &str) -> (k: String)
    ensures
        k@ == spec_artifact_key(name@, version@, os@, arch@),
{
    let mut k = String::from_str("get_artifacts_");
    k.append(name);
    k.append("_");
    k.append(version);
    k.append("_");
    k.append(os);
    k.append("_");
    k.append(arch);
    proof {
        assert(k@ =~= spec_artifact_key(name@, version@, os@, arch@));
    }
    k
}

/// Law: the artifact-cache key embeds the version string unchanged — for a
/// tagged version the key carries the raw tag, whatever display stripping
/// does to the shown version.
pub proof fn lemma_raw_version_in_artifact_key(
    name: Seq<char>,
    version: Seq<char>,
    os: Seq<char>,
    arch: Seq<char>,
)
    ensures
        has_sub(spec_artifact_key(name, version, os, arch), version),
{
    let k = spec_artifact_key(name, version, os, arch);
    let off = "get_artifacts_"@.len() + name.len() + "_"@.len();
    assert(k.subrange(off as int, off + version.len() as int) =~= version);
    assert(match_at(k, version, off as int));
}

} // verus!
