use terustry::RegistryError;
use terustry::conf::{
    Configuration, ConfigurationArtifact, ConfigurationBinary, ConfigurationProvider,
    ConfigurationSignature, ConfigurationVersion, env_allow_list, get_provider_conf, provider_key,
};
use terustry::github::{self, GithubReleaseListResponse};
use terustry::gitlab::{self, GitlabReleaseListResponse};
use terustry::versions::{BackendKind, build_versions_request, build_versions_response, kind_of};

fn widget_provider(kind: &str) -> ConfigurationProvider {
    ConfigurationProvider {
        name: "acme/widget".to_string(),
        protocols: vec!["5.0".to_string()],
        version: ConfigurationVersion {
            kind: kind.to_string(),
            uri: "https://releases.example/acme/widget".to_string(),
            token: "{{terustry_token}}".to_string(),
        },
        binaries: vec![
            ConfigurationBinary { os: "linux".to_string(), arch: "amd64".to_string() },
            ConfigurationBinary { os: "darwin".to_string(), arch: "arm64".to_string() },
        ],
        signature: ConfigurationSignature {
            key_id: "KEYID".to_string(),
            key_armor: "ARMOR".to_string(),
        },
        artifact: ConfigurationArtifact {
            filename: "pkg_{{version}}_{{os}}_{{arch}}.zip".to_string(),
            download_url: "https://dl.example/{{version}}/pkg_{{version}}_{{os}}_{{arch}}.zip"
                .to_string(),
            shasums_url: "https://dl.example/{{version}}/SHA256SUMS".to_string(),
            shasums_signature_url: "https://dl.example/{{version}}/SHA256SUMS.sig".to_string(),
        },
    }
}

#[test]
fn provider_key_joins_namespace_and_name() {
    assert_eq!(provider_key("acme", "widget"), "acme/widget");
}

#[test]
fn known_provider_is_found_by_key() {
    let conf = Configuration { providers: vec![widget_provider("github")] };
    let got = get_provider_conf(&conf, "acme".to_string(), "widget".to_string());
    assert_eq!(got.map(|p| p.name), Ok("acme/widget".to_string()));
}

#[test]
fn unknown_provider_is_reported() {
    let conf = Configuration { providers: vec![widget_provider("github")] };
    let got = get_provider_conf(&conf, "nobody".to_string(), "nothing".to_string());
    assert_eq!(got.map(|p| p.name), Err(RegistryError::UnknownProvider));
}

#[test]
fn env_allow_list_keeps_only_prefixed_variables() {
    let pairs = vec![
        ("TERUSTRY_TOKEN".to_string(), "tok".to_string()),
        ("PATH".to_string(), "/usr/bin".to_string()),
        ("terustry_other".to_string(), "x".to_string()),
    ];
    let got = env_allow_list(&pairs);
    assert_eq!(
        got,
        vec![
            ("terustry_token".to_string(), "tok".to_string()),
            ("terustry_other".to_string(), "x".to_string()),
        ]
    );
}

#[test]
fn kind_strings_map_to_backends() {
    assert_eq!(kind_of("github"), Some(BackendKind::Github));
    assert_eq!(kind_of("gitlab"), Some(BackendKind::Gitlab));
    assert_eq!(kind_of("bitbucket"), None);
}

#[test]
fn github_request_carries_token_scheme_auth_header() {
    let provider = widget_provider("github");
    let env = vec![("TERUSTRY_TOKEN".to_string(), "sesame".to_string())];
    let req = build_versions_request(&provider, &env).unwrap();
    assert_eq!(req.url, "https://releases.example/acme/widget");
    assert_eq!(
        req.headers,
        vec![
            ("Authorization".to_string(), "Token sesame".to_string()),
            ("User-Agent".to_string(), "terustry".to_string()),
        ]
    );
}

#[test]
fn gitlab_request_paginates_and_uses_private_token_header() {
    let provider = widget_provider("gitlab");
    let env = vec![("TERUSTRY_TOKEN".to_string(), "sesame".to_string())];
    let req = build_versions_request(&provider, &env).unwrap();
    assert_eq!(req.url, "https://releases.example/acme/widget?per_page=100");
    assert_eq!(req.headers, vec![("PRIVATE-TOKEN".to_string(), "sesame".to_string())]);
}

#[test]
fn unknown_kind_is_reported() {
    let provider = widget_provider("bitbucket");
    let env: Vec<(String, String)> = Vec::new();
    let got = build_versions_request(&provider, &env).map(|r| r.url);
    assert_eq!(got, Err(RegistryError::UnknownProviderKind));
}

#[test]
fn unrenderable_credential_template_is_a_template_error() {
    let mut provider = widget_provider("github");
    provider.version.token = "{{#each}}".to_string();
    let env = vec![("TERUSTRY_TOKEN".to_string(), "sesame".to_string())];
    let got = build_versions_request(&provider, &env).map(|r| r.url);
    assert_eq!(got, Err(RegistryError::Template));
}

#[test]
fn credential_placeholder_missing_from_environment_is_a_template_error() {
    let provider = widget_provider("github");
    let env: Vec<(String, String)> = Vec::new();
    let got = build_versions_request(&provider, &env).map(|r| r.url);
    assert_eq!(got, Err(RegistryError::Template));
}

#[test]
fn no_tags_give_an_empty_versions_list() {
    let provider = widget_provider("github");
    let tags: Vec<String> = Vec::new();
    let resp = build_versions_response(&provider, &tags);
    assert_eq!(resp.id, "acme/widget");
    assert!(resp.versions.is_empty());
}

#[test]
fn versions_response_strips_leading_v_for_display() {
    let provider = widget_provider("github");
    let tags = vec!["v1.0.0".to_string(), "v1.1.0".to_string()];
    let resp = build_versions_response(&provider, &tags);
    assert_eq!(resp.id, "acme/widget");
    assert_eq!(resp.versions.len(), 2);
    assert_eq!(resp.versions[0].version, "1.0.0");
    assert_eq!(resp.versions[1].version, "1.1.0");
    assert_eq!(resp.versions[0].protocols, vec!["5.0".to_string()]);
    assert_eq!(resp.versions[0].platforms.len(), 2);
    assert_eq!(resp.versions[0].platforms[0].os, "linux");
    assert_eq!(resp.versions[0].platforms[0].arch, "amd64");
    assert_eq!(resp.versions[1].platforms[1].os, "darwin");
    assert_eq!(resp.versions[1].platforms[1].arch, "arm64");
}

#[test]
fn versions_response_keeps_upstream_tag_order() {
    let provider = widget_provider("github");
    let tags = vec!["v2.0.0".to_string(), "v0.1.0".to_string(), "other".to_string()];
    let resp = build_versions_response(&provider, &tags);
    let shown: Vec<&str> = resp.versions.iter().map(|v| v.version.as_str()).collect();
    assert_eq!(shown, vec!["2.0.0", "0.1.0", "other"]);
}

#[test]
fn release_tags_preserve_upstream_order() {
    let gh = vec![
        GithubReleaseListResponse { name: "b".to_string(), tag_name: "v2".to_string() },
        GithubReleaseListResponse { name: "a".to_string(), tag_name: "v1".to_string() },
    ];
    assert_eq!(github::release_tags(&gh), vec!["v2".to_string(), "v1".to_string()]);
    let gl = vec![
        GitlabReleaseListResponse { name: "a".to_string(), tag_name: "v3".to_string() },
    ];
    assert_eq!(gitlab::release_tags(&gl), vec!["v3".to_string()]);
}

#[test]
fn versions_flow_from_catalog_to_response() {
    // The whole versions path short of the network: look the provider up,
    // build its listing request, pretend the backend answered two releases,
    // and shape the answer.
    let conf = Configuration { providers: vec![widget_provider("github")] };
    let provider = get_provider_conf(&conf, "acme".to_string(), "widget".to_string())
        .map_err(|_| ())
        .unwrap();
    let env = vec![("TERUSTRY_TOKEN".to_string(), "sesame".to_string())];
    let req = build_versions_request(&provider, &env).unwrap();
    assert_eq!(req.url, "https://releases.example/acme/widget");
    let releases = vec![
        GithubReleaseListResponse { name: "one".to_string(), tag_name: "v1.0.0".to_string() },
        GithubReleaseListResponse { name: "two".to_string(), tag_name: "v1.1.0".to_string() },
    ];
    let tags = github::release_tags(&releases);
    let resp = build_versions_response(&provider, &tags);
    assert_eq!(resp.id, "acme/widget");
    let shown: Vec<&str> = resp.versions.iter().map(|v| v.version.as_str()).collect();
    assert_eq!(shown, vec!["1.0.0", "1.1.0"]);
}

#[test]
fn discovery_documents_are_fixed() {
    assert!(terustry::models::root_value().ok);
    assert_eq!(terustry::models::well_known_value().providers_v1, "/terraform/providers/v1/");
}
