//! Template rendering.  The templates themselves (URL templates and
//! credential templates) come from the provider catalog; rendering is done
//! by the handlebars engine behind one trusted wrapper, and every caller's
//! contract speaks of the rendered text by name.

use vstd::prelude::*;

verus! {

use crate::conf::pairs_view;
use vstd::string::StringExecFns;

/// What `handlebars` renders template `template` to under context `ctx`
/// (`None` when rendering fails): a function of the template text and the
/// context pairs alone.
pub uninterp spec fn hb_render(template: Seq<char>, ctx: Seq<(Seq<char>, Seq<char>)>) -> Option<
    Seq<char>,
>;

/// Relies on `handlebars::Handlebars::render_template`: a fresh registry
/// has no helpers, and in strict mode a placeholder missing from the
/// context is an error rather than empty output, so the result — success
/// or failure — depends on the template string and the context pairs alone.
#[verifier::external_body]
pub(crate) fn render_template(template: &str, ctx: &Vec<(String, String)>) -> (r: Option<String>)
    ensures
        r is Some <==> hb_render(template@, pairs_view(ctx@)) is Some,
        r matches Some(s) ==> hb_render(template@, pairs_view(ctx@)) == Some(s@),
{
    let data: std::collections::HashMap<String, String> = ctx.iter().cloned().collect();
    let mut registry = handlebars::Handlebars::new();
    registry.set_strict_mode(true);
    registry.render_template(template, &data).ok()
}

/// The context every artifact template is rendered against: exactly the
/// three keys `version`, `os` and `arch`.
pub open spec fn spec_artifact_ctx(version: Seq<char>, os: Seq<char>, arch: Seq<char>) -> Seq<
    (Seq<char>, Seq<char>),
> {
    seq![("version"@, version), ("os"@, os), ("arch"@, arch)]
}

/// Builds the three-key artifact template context.
pub fn artifact_ctx(version: &str, os: &str, arch: &str) -> (r: Vec<(String, String)>)
    ensures
        pairs_view(r@) == spec_artifact_ctx(version@, os@, arch@),
{
    let mut r: Vec<(String, String)> = Vec::new();
    r.push((String::from_str("version"), String::from_str(version)));
    r.push((String::from_str("os"), String::from_str(os)));
    r.push((String::from_str("arch"), String::from_str(arch)));
    proof {
        assert(pairs_view(r@) =~~= spec_artifact_ctx(version@, os@, arch@));
    }
    r
}

} // verus!
