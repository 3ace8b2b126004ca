//! Regular-expression matching, provided by the `regex` crate.
//!
//! Match positions are reported in characters (not bytes), so that they index the
//! `Seq<char>` view of the searched text.
use vstd::prelude::*;

verus! {

/// The successive non-overlapping (leftmost-first) matches of `pattern` in
/// `text`, as character ranges; `None` when `pattern` does not compile.
pub uninterp spec fn regex_matches(pattern: Seq<char>, text: Seq<char>) -> Option<Seq<(int, int)>>;

/// The capture groups of the first match of `pattern` in `text`, as character
/// ranges (`None` for a group that did not take part); `Some(None)` when nothing
/// matches; `None` when `pattern` does not compile.
pub uninterp spec fn regex_first_captures(pattern: Seq<char>, text: Seq<char>) -> Option<
    Option<Seq<Option<(int, int)>>>,
>;

/// Whether `c` has a meaning in a regular expression (the `regex` crate's
/// meta characters).
pub open spec fn is_meta_character(c: char) -> bool {
    c == '\\' || c == '.' || c == '+' || c == '*' || c == '?' || c == '(' || c == ')' || c == '|'
        || c == '[' || c == ']' || c == '{' || c == '}' || c == '^' || c == '$' || c == '#' || c
        == '&' || c == '-' || c == '~'
}

/// `pattern` with a backslash before every regular-expression meta character,
/// so that it matches itself literally.
pub open spec fn regex_escaped(pattern: Seq<char>) -> Seq<char>
    decreases pattern.len(),
{
    if pattern.len() == 0 {
        Seq::empty()
    } else {
        let c = pattern.last();
        regex_escaped(pattern.drop_last()) + if is_meta_character(c) {
            seq!['\\', c]
        } else {
            seq![c]
        }
    }
}

/// The ranges of `v` as integers.
pub open spec fn spans_view(v: Seq<(usize, usize)>) -> Seq<(int, int)> {
    v.map_values(|p: (usize, usize)| (p.0 as int, p.1 as int))
}

/// The optional ranges of `v` as integers.
pub open spec fn groups_view(v: Seq<Option<(usize, usize)>>) -> Seq<Option<(int, int)>> {
    v.map_values(
        |g: Option<(usize, usize)>|
            match g {
                Some(p) => Some((p.0 as int, p.1 as int)),
                None => None,
            },
    )
}

/// Whether `spans` are ranges of a text of length `len`, in order and not
/// overlapping.
pub open spec fn spans_ordered(spans: Seq<(int, int)>, len: int) -> bool {
    &&& forall|i: int| 0 <= i < spans.len() ==> 0 <= #[trigger] spans[i].0 <= spans[i].1 <= len
    &&& forall|i: int| 0 < i < spans.len() ==> spans[i - 1].1 <= #[trigger] spans[i].0
}

/// Whether every group present in `groups` is a range of a text of length `len`.
pub open spec fn groups_within(groups: Seq<Option<(int, int)>>, len: int) -> bool {
    forall|i: int|
        0 <= i < groups.len() ==> (#[trigger] groups[i] matches Some(p) ==> 0 <= p.0 <= p.1 <= len)
}

/// `Regex::new(pattern)` followed by `find_iter(text)`: the matches in order,
/// each as a character range; `None` when the pattern does not compile. The
/// contract names the result and states what the crate documents of every
/// outcome: ranges within the text, in order and not overlapping.
#[verifier::external_body]
pub(crate) fn find_matches(pattern: &str, text: &str) -> (r: Option<Vec<(usize, usize)>>)
    ensures
        r is None <==> regex_matches(pattern@, text@) is None,
        r matches Some(v) ==> regex_matches(pattern@, text@) == Some(spans_view(v@))
            && spans_ordered(spans_view(v@), text@.len() as int),
{
    let re = regex::Regex::new(pattern).ok()?;
    let count = |b: usize| text[..b].chars().count();
    Some(re.find_iter(text).map(|m| (count(m.start()), count(m.end()))).collect())
}

/// `Regex::new(pattern)` followed by `captures(text)`: the capture groups of the
/// first match as character ranges. The contract names the result and states
/// that every group lies within the text.
#[verifier::external_body]
pub(crate) fn first_captures(pattern: &str, text: &str) -> (r: Option<Option<Vec<Option<(usize, usize)>>>>)
    ensures
        r is None <==> regex_first_captures(pattern@, text@) is None,
        r matches Some(None) <==> regex_first_captures(pattern@, text@) matches Some(None),
        r matches Some(Some(g)) ==> regex_first_captures(pattern@, text@) == Some(
            Some(groups_view(g@)),
        ) && groups_within(groups_view(g@), text@.len() as int),
{
    let re = regex::Regex::new(pattern).ok()?;
    let count = |b: usize| text[..b].chars().count();
    Some(re.captures(text).map(|c| c.iter().map(|g| g.map(|m| (count(m.start()), count(m.end())))).collect()))
}

/// `pattern` with its meta characters escaped, as `regex::escape` does, so
/// that it matches itself literally.
pub fn escape(pattern: &str) -> (r: String)
    ensures
        r@ == regex_escaped(pattern@),
{
    let v = crate::text::chars_of(pattern);
    let mut out: Vec<char> = Vec::new();
    let mut i: usize = 0;
    while i < v.len()
        invariant
            i <= v@.len(),
            v@ == pattern@,
            out@ == regex_escaped(v@.take(i as int)),
        decreases v@.len() - i,
    {
        let c = v[i];
        let meta = c == '\\' || c == '.' || c == '+' || c == '*' || c == '?' || c == '(' || c == ')'
            || c == '|' || c == '[' || c == ']' || c == '{' || c == '}' || c == '^' || c == '$'
            || c == '#' || c == '&' || c == '-' || c == '~';
        if meta {
            out.push('\\');
        }
        out.push(c);
        proof {
            assert(v@.take(i + 1).drop_last() =~= v@.take(i as int));
            assert(v@.take(i + 1).last() == c);
        }
        assert(out@ =~= regex_escaped(v@.take(i + 1)));
        i = i + 1;
    }
    assert(v@.take(v@.len() as int) =~= v@);
    crate::text::string_of(out.as_slice())
}

} // verus!
