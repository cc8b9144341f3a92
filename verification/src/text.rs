//! Character-level text utilities: splitting on a separator, substring
//! search, prefix tests and equality, all specified over `Seq<char>` views.

use vstd::prelude::*;

verus! {

use vstd::string::StrSliceExecFns;
use vstd::string::StringExecFns;

/// The pieces of `s` between occurrences of `sep`, in order: one piece more
/// than there are separators, empty pieces kept (the semantics of
/// `str::split` with a single-character pattern).
pub open spec fn split_on(s: Seq<char>, sep: char) -> Seq<Seq<char>>
    decreases s.len(),
{
    if s.len() == 0 {
        seq![Seq::<char>::empty()]
    } else if s[s.len() - 1] == sep {
        split_on(s.drop_last(), sep).push(Seq::<char>::empty())
    } else {
        let r = split_on(s.drop_last(), sep);
        r.update(r.len() - 1, r.last().push(s.last()))
    }
}

pub proof fn lemma_split_on_len(s: Seq<char>, sep: char)
    ensures
        split_on(s, sep).len() >= 1,
    decreases s.len(),
{
    if s.len() != 0 {
        lemma_split_on_len(s.drop_last(), sep);
    }
}

/// The views of a sequence of owned strings.
pub open spec fn views_of(s: Seq<String>) -> Seq<Seq<char>> {
    s.map_values(|x: String| x@)
}

/// Splits `s` at every occurrence of `sep`, keeping empty pieces.
pub fn split_str(s: &str, sep: char) -> (r: Vec<String>)
    ensures
        views_of(r@) == split_on(s@, sep),
{
    let len = s.unicode_len();
    let mut r: Vec<String> = Vec::new();
    let mut start: usize = 0;
    let mut i: usize = 0;
    proof {
        assert(s@.subrange(0, 0) =~= Seq::<char>::empty());
        assert(views_of(r@).push(s@.subrange(0, 0)) =~~= split_on(Seq::<char>::empty(), sep));
    }
    while i < len
        invariant
            start <= i <= len == s@.len(),
            views_of(r@).push(s@.subrange(start as int, i as int)) == split_on(
                s@.subrange(0, i as int),
                sep,
            ),
        decreases len - i,
    {
        proof {
            assert(s@.subrange(0, i + 1).drop_last() =~= s@.subrange(0, i as int));
            assert(s@.subrange(0, i + 1).last() == s@[i as int]);
        }
        if s.get_char(i) == sep {
            let piece = String::from_str(s.substring_char(start, i));
            r.push(piece);
            proof {
                assert(split_on(s@.subrange(0, i + 1), sep) == split_on(
                    s@.subrange(0, i as int),
                    sep,
                ).push(Seq::<char>::empty()));
                assert(s@.subrange(i + 1, i + 1) =~= Seq::<char>::empty());
                assert(views_of(r@).push(s@.subrange(i + 1, i + 1)) =~= split_on(
                    s@.subrange(0, i + 1),
                    sep,
                ));
            }
            start = i + 1;
        } else {
            proof {
                let r0 = split_on(s@.subrange(0, i as int), sep);
                lemma_split_on_len(s@.subrange(0, i as int), sep);
                assert(r0.last() == s@.subrange(start as int, i as int));
                assert(split_on(s@.subrange(0, i + 1), sep) == r0.update(
                    r0.len() - 1,
                    r0.last().push(s@[i as int]),
                ));
                assert(s@.subrange(start as int, i as int).push(s@[i as int]) =~= s@.subrange(
                    start as int,
                    i + 1,
                ));
                assert(views_of(r@).push(s@.subrange(start as int, i + 1)) =~= r0.update(
                    r0.len() - 1,
                    r0.last().push(s@[i as int]),
                ));
            }
        }
        i = i + 1;
    }
    let piece = String::from_str(s.substring_char(start, len));
    r.push(piece);
    proof {
        assert(s@.subrange(0, len as int) =~= s@);
        assert(views_of(r@) =~= views_of(r@.drop_last()).push(s@.subrange(
            start as int,
            len as int,
        )));
    }
    r
}

/// The Unicode white-space characters, as `char::is_whitespace` counts
/// them.
pub open spec fn spec_is_space(c: char) -> bool {
    ||| c == ' '
    ||| c == '\t'
    ||| c == '\n'
    ||| c == '\u{0B}'
    ||| c == '\u{0C}'
    ||| c == '\r'
    ||| c == '\u{85}'
    ||| c == '\u{A0}'
    ||| c == '\u{1680}'
    ||| c == '\u{2000}'
    ||| c == '\u{2001}'
    ||| c == '\u{2002}'
    ||| c == '\u{2003}'
    ||| c == '\u{2004}'
    ||| c == '\u{2005}'
    ||| c == '\u{2006}'
    ||| c == '\u{2007}'
    ||| c == '\u{2008}'
    ||| c == '\u{2009}'
    ||| c == '\u{200A}'
    ||| c == '\u{2028}'
    ||| c == '\u{2029}'
    ||| c == '\u{202F}'
    ||| c == '\u{205F}'
    ||| c == '\u{3000}'
}

/// Whether `c` is a white-space character.
pub fn is_space(c: char) -> (r: bool)
    ensures
        r == spec_is_space(c),
{
    c == ' ' || c == '\t' || c == '\n' || c == '\u{0B}' || c == '\u{0C}' || c == '\r'
        || c == '\u{85}' || c == '\u{A0}' || c == '\u{1680}' || c == '\u{2000}' || c == '\u{2001}'
        || c == '\u{2002}' || c == '\u{2003}' || c == '\u{2004}' || c == '\u{2005}'
        || c == '\u{2006}' || c == '\u{2007}' || c == '\u{2008}' || c == '\u{2009}'
        || c == '\u{200A}' || c == '\u{2028}' || c == '\u{2029}' || c == '\u{202F}'
        || c == '\u{205F}' || c == '\u{3000}'
}

/// The pieces of `s` between white-space characters, in order: one piece
/// more than there are white-space characters, empty pieces kept.  The
/// non-empty pieces are exactly the maximal white-space-free runs of `s`.
pub open spec fn split_on_ws(s: Seq<char>) -> Seq<Seq<char>>
    decreases s.len(),
{
    if s.len() == 0 {
        seq![Seq::<char>::empty()]
    } else if spec_is_space(s[s.len() - 1]) {
        split_on_ws(s.drop_last()).push(Seq::<char>::empty())
    } else {
        let r = split_on_ws(s.drop_last());
        r.update(r.len() - 1, r.last().push(s.last()))
    }
}

pub proof fn lemma_split_on_ws_len(s: Seq<char>)
    ensures
        split_on_ws(s).len() >= 1,
    decreases s.len(),
{
    if s.len() != 0 {
        lemma_split_on_ws_len(s.drop_last());
    }
}

/// Splits `s` at every white-space character, keeping empty pieces.
pub fn split_str_ws(s: &str) -> (r: Vec<String>)
    ensures
        views_of(r@) == split_on_ws(s@),
{
    let len = s.unicode_len();
    let mut r: Vec<String> = Vec::new();
    let mut start: usize = 0;
    let mut i: usize = 0;
    proof {
        assert(s@.subrange(0, 0) =~= Seq::<char>::empty());
        assert(views_of(r@).push(s@.subrange(0, 0)) =~~= split_on_ws(Seq::<char>::empty()));
    }
    while i < len
        invariant
            start <= i <= len == s@.len(),
            views_of(r@).push(s@.subrange(start as int, i as int)) == split_on_ws(
                s@.subrange(0, i as int),
            ),
        decreases len - i,
    {
        proof {
            assert(s@.subrange(0, i + 1).drop_last() =~= s@.subrange(0, i as int));
            assert(s@.subrange(0, i + 1).last() == s@[i as int]);
        }
        if is_space(s.get_char(i)) {
            let piece = String::from_str(s.substring_char(start, i));
            r.push(piece);
            proof {
                assert(split_on_ws(s@.subrange(0, i + 1)) == split_on_ws(
                    s@.subrange(0, i as int),
                ).push(Seq::<char>::empty()));
                assert(s@.subrange(i + 1, i + 1) =~= Seq::<char>::empty());
                assert(views_of(r@).push(s@.subrange(i + 1, i + 1)) =~= split_on_ws(
                    s@.subrange(0, i + 1),
                ));
            }
            start = i + 1;
        } else {
            proof {
                let r0 = split_on_ws(s@.subrange(0, i as int));
                lemma_split_on_ws_len(s@.subrange(0, i as int));
                assert(r0.last() == s@.subrange(start as int, i as int));
                assert(split_on_ws(s@.subrange(0, i + 1)) == r0.update(
                    r0.len() - 1,
                    r0.last().push(s@[i as int]),
                ));
                assert(s@.subrange(start as int, i as int).push(s@[i as int]) =~= s@.subrange(
                    start as int,
                    i + 1,
                ));
                assert(views_of(r@).push(s@.subrange(start as int, i + 1)) =~= r0.update(
                    r0.len() - 1,
                    r0.last().push(s@[i as int]),
                ));
            }
        }
        i = i + 1;
    }
    let piece = String::from_str(s.substring_char(start, len));
    r.push(piece);
    proof {
        assert(s@.subrange(0, len as int) =~= s@);
        assert(views_of(r@) =~= views_of(r@.drop_last()).push(s@.subrange(
            start as int,
            len as int,
        )));
    }
    r
}

/// `needle` occurs in `hay` starting at offset `k`.
pub open spec fn match_at(hay: Seq<char>, needle: Seq<char>, k: int) -> bool {
    &&& 0 <= k
    &&& k + needle.len() <= hay.len()
    &&& hay.subrange(k, k + needle.len() as int) == needle
}

/// `needle` occurs somewhere in `hay` as a contiguous run.
pub open spec fn has_sub(hay: Seq<char>, needle: Seq<char>) -> bool {
    exists|k: int| match_at(hay, needle, k)
}

/// Substring search: does `needle` occur contiguously in `hay`?
pub fn contains_sub(hay: &str, needle: &str) -> (b: bool)
    ensures
        b == has_sub(hay@, needle@),
{
    let h: Vec<char> = str_chars(hay);
    let n: Vec<char> = str_chars(needle);
    if n.len() > h.len() {
        return false;
    }
    if n.len() == 0 {
        proof {
            assert(hay@.subrange(0, 0) =~= needle@);
            assert(match_at(hay@, needle@, 0));
        }
        return true;
    }
    let mut k: usize = 0;
    while k <= h.len() - n.len()
        invariant
            1 <= n.len() <= h.len(),
            k <= h@.len() - n@.len() + 1,
            h@ == hay@,
            n@ == needle@,
            forall|k2: int| 0 <= k2 < k ==> !match_at(hay@, needle@, k2),
        decreases h.len() - n.len() + 1 - k,
    {
        let mut j: usize = 0;
        let mut hit = true;
        while hit && j < n.len()
            invariant
                k + n.len() <= h.len(),
                h@ == hay@,
                n@ == needle@,
                j <= n.len(),
                hit ==> forall|j2: int| 0 <= j2 < j ==> hay@[k + j2] == needle@[j2],
                !hit ==> !match_at(hay@, needle@, k as int),
            decreases n.len() - j,
        {
            if h[k + j] != n[j] {
                proof {
                    assert(!match_at(hay@, needle@, k as int)) by {
                        if match_at(hay@, needle@, k as int) {
                            assert(hay@.subrange(k as int, k + needle@.len() as int)[j as int]
                                == needle@[j as int]);
                        }
                    }
                }
                hit = false;
            }
            j = j + 1;
        }
        if hit {
            proof {
                assert(hay@.subrange(k as int, k + needle@.len() as int) =~= needle@);
                assert(match_at(hay@, needle@, k as int));
            }
            return true;
        }
        k = k + 1;
    }
    false
}

/// The characters of `s` as a vector.
pub fn str_chars(s: &str) -> (r: Vec<char>)
    ensures
        r@ == s@,
{
    let len = s.unicode_len();
    let mut r: Vec<char> = Vec::new();
    let mut i: usize = 0;
    while i < len
        invariant
            i <= len == s@.len(),
            r@ == s@.subrange(0, i as int),
        decreases len - i,
    {
        r.push(s.get_char(i));
        proof {
            assert(r@ =~= s@.subrange(0, i + 1));
        }
        i = i + 1;
    }
    proof {
        assert(s@.subrange(0, len as int) =~= s@);
    }
    r
}

/// Character-for-character equality of two string slices.
pub fn str_eq_str(a: &str, b: &str) -> (r: bool)
    ensures
        r == (a@ == b@),
{
    let la = a.unicode_len();
    let lb = b.unicode_len();
    if la != lb {
        proof {
            assert(a@ != b@) by {
                if a@ == b@ {
                    assert(a@.len() == b@.len());
                }
            }
        }
        return false;
    }
    let mut i: usize = 0;
    while i < la
        invariant
            la == a@.len() == b@.len(),
            i <= la,
            forall|j: int| 0 <= j < i ==> a@[j] == b@[j],
        decreases la - i,
    {
        if a.get_char(i) != b.get_char(i) {
            return false;
        }
        i = i + 1;
    }
    proof {
        assert(a@ =~= b@);
    }
    true
}

/// `s` begins with `prefix`.
pub open spec fn is_prefix(s: Seq<char>, prefix: Seq<char>) -> bool {
    s.len() >= prefix.len() && s.subrange(0, prefix.len() as int) == prefix
}

/// Prefix test, character for character.
pub fn starts_with_str(s: &str, prefix: &str) -> (b: bool)
    ensures
        b == is_prefix(s@, prefix@),
{
    let lp = prefix.unicode_len();
    if s.unicode_len() < lp {
        return false;
    }
    let mut i: usize = 0;
    while i < lp
        invariant
            lp == prefix@.len() <= s@.len(),
            i <= lp,
            forall|j: int| 0 <= j < i ==> s@[j] == prefix@[j],
        decreases lp - i,
    {
        if s.get_char(i) != prefix.get_char(i) {
            proof {
                assert(!is_prefix(s@, prefix@)) by {
                    if is_prefix(s@, prefix@) {
                        assert(s@.subrange(0, prefix@.len() as int)[i as int] == prefix@[i as int]);
                    }
                }
            }
            return false;
        }
        i = i + 1;
    }
    proof {
        assert(s@.subrange(0, prefix@.len() as int) =~= prefix@);
    }
    true
}

/// `t` with its maximal leading run of `c` removed.
pub open spec fn strip_leading(t: Seq<char>, c: char) -> Seq<char>
    decreases t.len(),
{
    if t.len() > 0 && t[0] == c {
        strip_leading(t.drop_first(), c)
    } else {
        t
    }
}

proof fn lemma_strip_leading_skip(t: Seq<char>, c: char, i: int)
    requires
        0 <= i <= t.len(),
        forall|j: int| 0 <= j < i ==> t[j] == c,
    ensures
        strip_leading(t, c) == strip_leading(t.skip(i), c),
    decreases i,
{
    if i > 0 {
        assert(t.drop_first() =~= t.skip(1));
        lemma_strip_leading_skip(t.skip(1), c, i - 1);
        assert(t.skip(1).skip(i - 1) =~= t.skip(i));
    } else {
        assert(t.skip(0) =~= t);
    }
}

/// Removes every leading occurrence of `c` from `t` (the semantics of
/// `str::trim_start_matches` with a single-character pattern).
pub fn strip_leading_chars(t: &str, c: char) -> (r: String)
    ensures
        r@ == strip_leading(t@, c),
{
    let len = t.unicode_len();
    let mut i: usize = 0;
    while i < len
        invariant
            i <= len == t@.len(),
            forall|j: int| 0 <= j < i ==> t@[j] == c,
        decreases len - i,
    {
        if t.get_char(i) != c {
            let r = String::from_str(t.substring_char(i, len));
            proof {
                lemma_strip_leading_skip(t@, c, i as int);
                assert(t@.skip(i as int) =~= t@.subrange(i as int, len as int));
                assert(strip_leading(t@.skip(i as int), c) == t@.skip(i as int));
            }
            return r;
        }
        i = i + 1;
    }
    proof {
        lemma_strip_leading_skip(t@, c, len as int);
        assert(t@.skip(len as int) =~= Seq::<char>::empty());
    }
    String::new()
}

} // verus!
