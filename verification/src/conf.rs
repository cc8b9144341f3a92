//! Provider catalog: the static configuration records, lookup by
//! `namespace/name` key, and the allow-listed environment map that
//! credential templates are rendered against.

use vstd::prelude::*;

verus! {

use crate::RegistryError;
use crate::text::{is_prefix, starts_with_str, str_eq_str};
use vstd::string::StringExecFns;

/// How a provider's releases are listed upstream.
pub struct ConfigurationVersion {
    /// The backend kind selecting the release-listing API.
    pub kind: String,
    /// The release-listing URI.
    pub uri: String,
    /// The credential template, rendered against the allow-listed environment.
    pub token: String,
}

/// One supported platform of a provider.
pub struct ConfigurationBinary {
    pub os: String,
    pub arch: String,
}

/// The four artifact URL templates, each with placeholders `version`, `os`,
/// `arch`.
pub struct ConfigurationArtifact {
    pub filename: String,
    pub download_url: String,
    pub shasums_url: String,
    pub shasums_signature_url: String,
}

/// The signing key material published with every artifact.
pub struct ConfigurationSignature {
    pub key_id: String,
    pub key_armor: String,
}

/// One catalog entry, keyed by its `namespace/name` name.
pub struct ConfigurationProvider {
    pub name: String,
    pub protocols: Vec<String>,
    pub version: ConfigurationVersion,
    pub binaries: Vec<ConfigurationBinary>,
    pub signature: ConfigurationSignature,
    pub artifact: ConfigurationArtifact,
}

/// The whole catalog, immutable after load.
pub struct Configuration {
    pub providers: Vec<ConfigurationProvider>,
}

/// Mathematical image of `ConfigurationVersion`.
pub ghost struct VersionSourceModel {
    pub kind: Seq<char>,
    pub uri: Seq<char>,
    pub token: Seq<char>,
}

/// Mathematical image of `ConfigurationBinary`.
pub ghost struct BinaryModel {
    pub os: Seq<char>,
    pub arch: Seq<char>,
}

/// Mathematical image of `ConfigurationArtifact`.
pub ghost struct ArtifactModel {
    pub filename: Seq<char>,
    pub download_url: Seq<char>,
    pub shasums_url: Seq<char>,
    pub shasums_signature_url: Seq<char>,
}

/// Mathematical image of `ConfigurationSignature`.
pub ghost struct SignatureModel {
    pub key_id: Seq<char>,
    pub key_armor: Seq<char>,
}

/// Mathematical image of `ConfigurationProvider`.
pub ghost struct ProviderModel {
    pub name: Seq<char>,
    pub protocols: Seq<Seq<char>>,
    pub version: VersionSourceModel,
    pub binaries: Seq<BinaryModel>,
    pub signature: SignatureModel,
    pub artifact: ArtifactModel,
}

impl View for ConfigurationVersion {
    type V = VersionSourceModel;

    open spec fn view(&self) -> VersionSourceModel {
        VersionSourceModel { kind: self.kind@, uri: self.uri@, token: self.token@ }
    }
}

impl View for ConfigurationBinary {
    type V = BinaryModel;

    open spec fn view(&self) -> BinaryModel {
        BinaryModel { os: self.os@, arch: self.arch@ }
    }
}

impl View for ConfigurationArtifact {
    type V = ArtifactModel;

    open spec fn view(&self) -> ArtifactModel {
        ArtifactModel {
            filename: self.filename@,
            download_url: self.download_url@,
            shasums_url: self.shasums_url@,
            shasums_signature_url: self.shasums_signature_url@,
        }
    }
}

impl View for ConfigurationSignature {
    type V = SignatureModel;

    open spec fn view(&self) -> SignatureModel {
        SignatureModel { key_id: self.key_id@, key_armor: self.key_armor@ }
    }
}

impl View for ConfigurationProvider {
    type V = ProviderModel;

    open spec fn view(&self) -> ProviderModel {
        ProviderModel {
            name: self.name@,
            protocols: self.protocols@.map_values(|p: String| p@),
            version: self.version@,
            binaries: self.binaries@.map_values(|b: ConfigurationBinary| b@),
            signature: self.signature@,
            artifact: self.artifact@,
        }
    }
}

impl Clone for ConfigurationVersion {
    fn clone(&self) -> (r: Self)
        ensures
            r@ == self@,
    {
        ConfigurationVersion {
            kind: self.kind.clone(),
            uri: self.uri.clone(),
            token: self.token.clone(),
        }
    }
}

impl Clone for ConfigurationBinary {
    fn clone(&self) -> (r: Self)
        ensures
            r@ == self@,
    {
        ConfigurationBinary { os: self.os.clone(), arch: self.arch.clone() }
    }
}

impl Clone for ConfigurationArtifact {
    fn clone(&self) -> (r: Self)
        ensures
            r@ == self@,
    {
        ConfigurationArtifact {
            filename: self.filename.clone(),
            download_url: self.download_url.clone(),
            shasums_url: self.shasums_url.clone(),
            shasums_signature_url: self.shasums_signature_url.clone(),
        }
    }
}

impl Clone for ConfigurationSignature {
    fn clone(&self) -> (r: Self)
        ensures
            r@ == self@,
    {
        ConfigurationSignature { key_id: self.key_id.clone(), key_armor: self.key_armor.clone() }
    }
}

impl Clone for ConfigurationProvider {
    fn clone(&self) -> (r: Self)
        ensures
            r@ == self@,
    {
        let r = ConfigurationProvider {
            name: self.name.clone(),
            protocols: self.protocols.clone(),
            version: self.version.clone(),
            binaries: self.binaries.clone(),
            signature: self.signature.clone(),
            artifact: self.artifact.clone(),
        };
        proof {
            assert(r@.protocols =~= self@.protocols);
            assert(r@.binaries =~= self@.binaries);
        }
        r
    }
}

/// The `namespace/name` key under which a provider is looked up.
pub open spec fn spec_provider_key(namespace: Seq<char>, name: Seq<char>) -> Seq<char> {
    namespace + seq!['/'] + name
}

/// Builds the `namespace/name` catalog key.
pub fn provider_key(namespace: &str, name: &str) -> (r: String)
    ensures
        r@ == spec_provider_key(namespace@, name@),
{
    let mut r = String::from_str(namespace);
    r.append("/");
    r.append(name);
    proof {
        reveal_strlit("/");
        assert(namespace@ + "/"@ + name@ =~= spec_provider_key(namespace@, name@));
    }
    r
}

/// Looks up the provider named `namespace/name`: the first catalog entry
/// with that name, or `UnknownProvider` when none carries it.
pub fn get_provider_conf(conf: &Configuration, namespace: String, name: String) -> (r: Result<
    ConfigurationProvider,
    RegistryError,
>)
    ensures
        ({
            let full = spec_provider_key(namespace@, name@);
            match r {
                Ok(p) => exists|i: int|
                    0 <= i < conf.providers@.len() && (#[trigger] conf.providers@[i])@.name == full
                        && p@ == conf.providers@[i]@ && (forall|j: int|
                        0 <= j < i ==> (#[trigger] conf.providers@[j])@.name != full),
                Err(e) => e == RegistryError::UnknownProvider && forall|i: int|
                    0 <= i < conf.providers@.len() ==> (#[trigger] conf.providers@[i])@.name
                        != full,
            }
        }),
{
    let key = provider_key(namespace.as_str(), name.as_str());
    let mut i: usize = 0;
    while i < conf.providers.len()
        invariant
            key@ == spec_provider_key(namespace@, name@),
            i <= conf.providers@.len(),
            forall|j: int| 0 <= j < i ==> (#[trigger] conf.providers@[j])@.name != key@,
        decreases conf.providers@.len() - i,
    {
        if str_eq_str(conf.providers[i].name.as_str(), key.as_str()) {
            return Ok(conf.providers[i].clone());
        }
        i = i + 1;
    }
    Err(RegistryError::UnknownProvider)
}

/// What `str::to_lowercase` returns: a function of the characters alone.
pub uninterp spec fn lower_of(s: Seq<char>) -> Seq<char>;

/// Relies on `str::to_lowercase`: the lowercased text depends on the
/// characters of `s` alone.
#[verifier::external_body]
fn lowercase(s: &str) -> (r: String)
    ensures
        r@ == lower_of(s@),
{
    s.to_lowercase()
}

/// The views of a sequence of owned string pairs.
pub open spec fn pairs_view(s: Seq<(String, String)>) -> Seq<(Seq<char>, Seq<char>)> {
    s.map_values(|p: (String, String)| (p.0@, p.1@))
}

/// The environment exposed to credential templates: only variables whose
/// lowercased name begins with `terustry_`, keyed by that lowercased name.
/// This is a deliberate allow-list; nothing else of the process environment
/// is visible to templates.
pub open spec fn spec_env_allow_list(pairs: Seq<(String, String)>) -> Seq<(Seq<char>, Seq<char>)> {
    pairs.map_values(|p: (String, String)| (lower_of(p.0@), p.1@)).filter(
        |q: (Seq<char>, Seq<char>)| is_prefix(q.0, "terustry_"@),
    )
}

proof fn lemma_filter_push(
    s: Seq<(Seq<char>, Seq<char>)>,
    pred: spec_fn((Seq<char>, Seq<char>)) -> bool,
    x: (Seq<char>, Seq<char>),
)
    ensures
        s.push(x).filter(pred) == if pred(x) {
            s.filter(pred).push(x)
        } else {
            s.filter(pred)
        },
{
    assert(s.push(x).drop_last() =~~= s);
    assert(s.push(x).last() == x);
    reveal_with_fuel(Seq::filter, 2);
}

/// Filters raw environment pairs down to the template allow-list.
pub fn env_allow_list(pairs: &Vec<(String, String)>) -> (r: Vec<(String, String)>)
    ensures
        pairs_view(r@) == spec_env_allow_list(pairs@),
{
    let ghost mapper = |p: (String, String)| (lower_of(p.0@), p.1@);
    let ghost pred = |q: (Seq<char>, Seq<char>)| is_prefix(q.0, "terustry_"@);
    let mut r: Vec<(String, String)> = Vec::new();
    let mut i: usize = 0;
    proof {
        assert(pairs@.subrange(0, 0).map_values(mapper) =~~= Seq::<(
            Seq<char>,
            Seq<char>,
        )>::empty());
        assert(pairs_view(r@) =~~= Seq::<(Seq<char>, Seq<char>)>::empty().filter(pred));
    }
    while i < pairs.len()
        invariant
            i <= pairs@.len(),
            mapper == (|p: (String, String)| (lower_of(p.0@), p.1@)),
            pred == (|q: (Seq<char>, Seq<char>)| is_prefix(q.0, "terustry_"@)),
            pairs_view(r@) == pairs@.subrange(0, i as int).map_values(mapper).filter(pred),
        decreases pairs@.len() - i,
    {
        let ghost prefix_mapped = pairs@.subrange(0, i as int).map_values(mapper);
        let ghost mq = mapper(pairs@[i as int]);
        proof {
            assert(pairs@.subrange(0, i + 1).drop_last() =~~= pairs@.subrange(0, i as int));
            assert(pairs@.subrange(0, i + 1).map_values(mapper) =~~= prefix_mapped.push(mq));
            lemma_filter_push(prefix_mapped, pred, mq);
        }
        let low = lowercase(pairs[i].0.as_str());
        if starts_with_str(low.as_str(), "terustry_") {
            let val = pairs[i].1.clone();
            r.push((low, val));
            proof {
                assert(pairs_view(r@) =~~= prefix_mapped.filter(pred).push(mq));
            }
        }
        i = i + 1;
    }
    proof {
        assert(pairs@.subrange(0, pairs@.len() as int) =~~= pairs@);
    }
    r
}

} // verus!
