//! The GitHub-style release-listing backend: request shape and tag
//! extraction from the parsed release list.

use vstd::prelude::*;

verus! {

use crate::RegistryError;
use crate::conf::{ConfigurationProvider, env_allow_list, pairs_view, spec_env_allow_list};
use crate::render::{hb_render, render_template};
use crate::versions::UpstreamRequest;
use vstd::string::StringExecFns;

/// One release entry of the GitHub-style listing answer.
pub struct GithubReleaseListResponse {
    pub name: String,
    pub tag_name: String,
}

/// The one GET that lists this provider's releases: the configured URI,
/// a `Token`-scheme authorization header rendered from the credential
/// template against the allow-listed environment, and a fixed user agent.
pub fn versions_request(provider: &ConfigurationProvider, env: &Vec<(String, String)>) -> (r:
    Result<UpstreamRequest, RegistryError>)
    ensures
        ({
            let tok = hb_render(provider@.version.token, spec_env_allow_list(env@));
            match r {
                Ok(req) => tok is Some && req.url@ == provider@.version.uri && pairs_view(
                    req.headers@,
                ) == seq![
                    ("Authorization"@, "Token "@ + tok.unwrap()),
                    ("User-Agent"@, "terustry"@),
                ],
                Err(e) => e == RegistryError::Template && tok is None,
            }
        }),
{
    let allowed = env_allow_list(env);
    match render_template(provider.version.token.as_str(), &allowed) {
        None => Err(RegistryError::Template),
        Some(tok) => {
            let url = provider.version.uri.clone();
            let mut auth = String::from_str("Token ");
            auth.append(tok.as_str());
            let mut headers: Vec<(String, String)> = Vec::new();
            headers.push((String::from_str("Authorization"), auth));
            headers.push((String::from_str("User-Agent"), String::from_str("terustry")));
            proof {
                assert(pairs_view(headers@) =~~= seq![
                    (
                        "Authorization"@,
                        "Token "@ + hb_render(
                            provider@.version.token,
                            spec_env_allow_list(env@),
                        ).unwrap(),
                    ),
                    ("User-Agent"@, "terustry"@),
                ]);
            }
            Ok(UpstreamRequest { url, headers })
        },
    }
}

/// The tags of the listed releases, upstream order preserved.
pub fn release_tags(releases: &Vec<GithubReleaseListResponse>) -> (r: Vec<String>)
    ensures
        r@.len() == releases@.len(),
        forall|i: int| 0 <= i < releases@.len() ==> (#[trigger] r@[i])@ == releases@[i].tag_name@,
{
    let mut r: Vec<String> = Vec::new();
    let mut i: usize = 0;
    while i < releases.len()
        invariant
            i <= releases@.len(),
            r@.len() == i,
            forall|j: int| 0 <= j < i ==> (#[trigger] r@[j])@ == releases@[j].tag_name@,
        decreases releases@.len() - i,
    {
        r.push(releases[i].tag_name.clone());
        i = i + 1;
    }
    r
}

} // verus!
