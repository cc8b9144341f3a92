//! Checksum extraction from a shasums manifest: a newline-delimited text
//! body whose lines pair artifact filenames with hex digests.  The extractor
//! finds the first line mentioning the requested platform and, within it,
//! the first whitespace-delimited token of exactly 64 characters.

use vstd::prelude::*;

verus! {

use crate::RegistryError;
use crate::text::{split_on, split_on_ws, split_str, split_str_ws, has_sub, contains_sub, views_of};
use vstd::string::StrSliceExecFns;
use vstd::string::StringExecFns;

/// The platform marker searched for in manifest lines: `os`, an underscore,
/// `arch`.
pub open spec fn needle_of(os: Seq<char>, arch: Seq<char>) -> Seq<char> {
    os + seq!['_'] + arch
}

/// The first line of `ls`, scanning in order, in which `needle` occurs.
pub open spec fn first_line_with(ls: Seq<Seq<char>>, needle: Seq<char>) -> Option<Seq<char>>
    decreases ls.len(),
{
    if ls.len() == 0 {
        None
    } else if has_sub(ls[0], needle) {
        Some(ls[0])
    } else {
        first_line_with(ls.drop_first(), needle)
    }
}

pub proof fn lemma_first_line_with_skip(ls: Seq<Seq<char>>, needle: Seq<char>, i: int)
    requires
        0 <= i <= ls.len(),
        forall|j: int| 0 <= j < i ==> !has_sub(#[trigger] ls[j], needle),
    ensures
        first_line_with(ls, needle) == first_line_with(ls.skip(i), needle),
    decreases i,
{
    if i > 0 {
        assert(ls.drop_first() =~~= ls.skip(1));
        lemma_first_line_with_skip(ls.skip(1), needle, i - 1);
        assert(ls.skip(1).skip(i - 1) =~~= ls.skip(i));
    } else {
        assert(ls.skip(0) =~~= ls);
    }
}

/// The first token of `ts`, scanning in order, of exactly 64 characters.
pub open spec fn first_token_64(ts: Seq<Seq<char>>) -> Option<Seq<char>>
    decreases ts.len(),
{
    if ts.len() == 0 {
        None
    } else if ts[0].len() == 64 {
        Some(ts[0])
    } else {
        first_token_64(ts.drop_first())
    }
}

pub proof fn lemma_first_token_64_skip(ts: Seq<Seq<char>>, i: int)
    requires
        0 <= i <= ts.len(),
        forall|j: int| 0 <= j < i ==> (#[trigger] ts[j]).len() != 64,
    ensures
        first_token_64(ts) == first_token_64(ts.skip(i)),
    decreases i,
{
    if i > 0 {
        assert(ts.drop_first() =~~= ts.skip(1));
        lemma_first_token_64_skip(ts.skip(1), i - 1);
        assert(ts.skip(1).skip(i - 1) =~~= ts.skip(i));
    } else {
        assert(ts.skip(0) =~~= ts);
    }
}

/// What the extractor returns for manifest `m` and platform `os`/`arch`:
/// the first 64-character whitespace-delimited token of the first line
/// containing the platform marker, or the error naming what was missing.
pub open spec fn spec_extract(m: Seq<char>, os: Seq<char>, arch: Seq<char>) -> Result<
    Seq<char>,
    RegistryError,
> {
    match first_line_with(split_on(m, '\n'), needle_of(os, arch)) {
        None => Err(RegistryError::LineNotFound),
        Some(line) => match first_token_64(split_on_ws(line)) {
            None => Err(RegistryError::ChecksumNotParsable),
            Some(tok) => Ok(tok),
        },
    }
}

/// Builds the platform marker `{os}_{arch}` as a string.
pub fn build_needle(os: &str, arch: &str) -> (r: String)
    ensures
        r@ == needle_of(os@, arch@),
{
    let mut r = String::from_str(os);
    r.append("_");
    r.append(arch);
    proof {
        reveal_strlit("_");
        assert(os@ + "_"@ + arch@ =~= needle_of(os@, arch@));
    }
    r
}

/// Extracts the digest for `os`/`arch` from the manifest text: first
/// matching line, first 64-character token, exactly as `spec_extract` says.
pub fn extract(manifest: &str, os: &str, arch: &str) -> (r: Result<String, RegistryError>)
    ensures
        ({
            let s = spec_extract(manifest@, os@, arch@);
            match r {
                Ok(d) => s == Ok::<Seq<char>, RegistryError>(d@),
                Err(e) => s == Err::<Seq<char>, RegistryError>(e),
            }
        }),
{
    let ghost needle_s = needle_of(os@, arch@);
    let needle = build_needle(os, arch);
    let lines = split_str(manifest, '\n');
    let ghost lviews = views_of(lines@);
    let mut i: usize = 0;
    while i < lines.len()
        invariant
            lviews == views_of(lines@),
            lviews == split_on(manifest@, '\n'),
            needle_s == needle_of(os@, arch@),
            needle@ == needle_s,
            i <= lines@.len(),
            forall|j: int| 0 <= j < i ==> !has_sub(#[trigger] lviews[j], needle_s),
        decreases lines@.len() - i,
    {
        proof {
            assert(lviews[i as int] == lines@[i as int]@);
        }
        if contains_sub(lines[i].as_str(), needle.as_str()) {
            proof {
                lemma_first_line_with_skip(lviews, needle_s, i as int);
                assert(lviews.skip(i as int)[0] == lviews[i as int]);
                assert(first_line_with(lviews, needle_s) == Some(lviews[i as int]));
            }
            let line = &lines[i];
            let toks = split_str_ws(line.as_str());
            let ghost tviews = views_of(toks@);
            let mut j: usize = 0;
            while j < toks.len()
                invariant
                    tviews == views_of(toks@),
                    tviews == split_on_ws(line@),
                    first_line_with(split_on(manifest@, '\n'), needle_of(os@, arch@)) == Some(
                        line@,
                    ),
                    j <= toks@.len(),
                    forall|j2: int| 0 <= j2 < j ==> (#[trigger] tviews[j2]).len() != 64,
                decreases toks@.len() - j,
            {
                proof {
                    assert(tviews[j as int] == toks@[j as int]@);
                }
                if toks[j].as_str().unicode_len() == 64 {
                    proof {
                        lemma_first_token_64_skip(tviews, j as int);
                        assert(tviews.skip(j as int)[0] == tviews[j as int]);
                        assert(first_token_64(tviews) == Some(tviews[j as int]));
                    }
                    let d = toks[j].clone();
                    return Ok(d);
                }
                j = j + 1;
            }
            proof {
                lemma_first_token_64_skip(tviews, toks@.len() as int);
                assert(tviews.skip(tviews.len() as int) =~~= Seq::<Seq<char>>::empty());
                assert(first_token_64(tviews) is None);
            }
            return Err(RegistryError::ChecksumNotParsable);
        }
        i = i + 1;
    }
    proof {
        lemma_first_line_with_skip(lviews, needle_s, lines@.len() as int);
        assert(lviews.skip(lviews.len() as int) =~~= Seq::<Seq<char>>::empty());
        assert(first_line_with(lviews, needle_s) is None);
    }
    Err(RegistryError::LineNotFound)
}

} // verus!
