//! The GitLab-style release-listing backend: request shape and tag
//! extraction from the parsed release list.

use vstd::prelude::*;

verus! {

use crate::RegistryError;
use crate::conf::{ConfigurationProvider, env_allow_list, pairs_view, spec_env_allow_list};
use crate::render::{hb_render, render_template};
use crate::versions::UpstreamRequest;
use vstd::string::StringExecFns;

/// One release entry of the GitLab-style listing answer.
pub struct GitlabReleaseListResponse {
    pub name: String,
    pub tag_name: String,
}

/// The one GET that lists this provider's releases: the configured URI with
/// an explicit page-size query, and a private-token header rendered from the
/// credential template against the allow-listed environment.
pub fn versions_request(provider: &ConfigurationProvider, env: &Vec<(String, String)>) -> (r:
    Result<UpstreamRequest, RegistryError>)
    ensures
        ({
            let tok = hb_render(provider@.version.token, spec_env_allow_list(env@));
            match r {
                Ok(req) => tok is Some && req.url@ == provider@.version.uri + "?per_page=100"@
                    && pairs_view(req.headers@) == seq![("PRIVATE-TOKEN"@, tok.unwrap())],
                Err(e) => e == RegistryError::Template && tok is None,
            }
        }),
{
    let allowed = env_allow_list(env);
    match render_template(provider.version.token.as_str(), &allowed) {
        None => Err(RegistryError::Template),
        Some(tok) => {
            let mut url = provider.version.uri.clone();
            url.append("?per_page=100");
            let mut headers: Vec<(String, String)> = Vec::new();
            headers.push((String::from_str("PRIVATE-TOKEN"), tok));
            proof {
                assert(pairs_view(headers@) =~~= seq![
                    (
                        "PRIVATE-TOKEN"@,
                        hb_render(
                            provider@.version.token,
                            spec_env_allow_list(env@),
                        ).unwrap(),
                    ),
                ]);
            }
            Ok(UpstreamRequest { url, headers })
        },
    }
}

/// The tags of the listed releases, upstream order preserved.
pub fn release_tags(releases: &Vec<GitlabReleaseListResponse>) -> (r: Vec<String>)
    ensures
        r@.len() == releases@.len(),
        forall|i: int| 0 <= i < releases@.len() ==> (#[trigger] r@[i])@ == releases@[i].tag_name@,
{
    let mut r: Vec<String> = Vec::new();
    let mut i: usize = 0;
    while i < releases.len()
        invariant
            i <= releases@.len(),
            r@.len() == i,
            forall|j: int| 0 <= j < i ==> (#[trigger] r@[j])@ == releases@[j].tag_name@,
        decreases releases@.len() - i,
    {
        r.push(releases[i].tag_name.clone());
        i = i + 1;
    }
    r
}

} // verus!
