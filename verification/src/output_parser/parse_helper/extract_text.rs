//! Extraction of the interesting part of model output: the text after the
//! model's thinking, the content of a fenced code block or of a tag, and the
//! outermost JSON object.
use vstd::prelude::*;
use crate::pattern::{find_matches, escape, regex_matches, regex_escaped, spans_ordered};
use crate::text::{chars_of, string_of, trim, trimmed, trim_front, trim_back, is_ws};

verus! {

/// Whether `p` occurs in `s` at position `i`.
pub open spec fn occurs_at(s: Seq<char>, p: Seq<char>, i: int) -> bool {
    0 <= i && i + p.len() <= s.len() && s.subrange(i, i + p.len()) == p
}

/// Whether `p` occurs in `s`.
pub open spec fn occurs_in(s: Seq<char>, p: Seq<char>) -> bool {
    exists|i: int| occurs_at(s, p, i)
}

/// The last position at which `p` occurs in `s` (meaningful when it occurs).
pub open spec fn last_occurrence(s: Seq<char>, p: Seq<char>) -> int {
    choose|i: int| occurs_at(s, p, i) && forall|j: int| occurs_at(s, p, j) ==> j <= i
}

/// The tag that closes a model's thinking: `</think>`.
pub open spec fn think_close() -> Seq<char> {
    seq!['<', '/', 't', 'h', 'i', 'n', 'k', '>']
}

/// What [`remove_thought`] returns: the trimmed text after the last `</think>`,
/// or the whole text when there is none.
pub open spec fn thought_removed(s: Seq<char>) -> Seq<char> {
    if occurs_in(s, think_close()) {
        trimmed(s.skip(last_occurrence(s, think_close()) + think_close().len()))
    } else {
        s
    }
}

fn think_close_tag() -> (v: Vec<char>)
    ensures
        v@ == think_close(),
{
    let mut v: Vec<char> = Vec::new();
    v.push('<');
    v.push('/');
    v.push('t');
    v.push('h');
    v.push('i');
    v.push('n');
    v.push('k');
    v.push('>');
    assert(v@ =~= think_close());
    v
}

/// Whether `p` occurs in `v` at position `i`.
pub(crate) fn matches_at(v: &[char], p: &[char], i: usize) -> (b: bool)
    requires
        i + p@.len() <= v@.len(),
    ensures
        b == occurs_at(v@, p@, i as int),
{
    let n = v.len();
    let mut k: usize = 0;
    while k < p.len()
        invariant
            n == v@.len(),
            k <= p@.len(),
            i + p@.len() <= v@.len(),
            forall|t: int| 0 <= t < k ==> v@[i + t] == p@[t],
        decreases p@.len() - k,
    {
        assert(i + k < v@.len());
        if v[i + k] != p[k] {
            assert(v@.subrange(i as int, i + p@.len())[k as int] != p@[k as int]);
            return false;
        }
        k = k + 1;
    }
    assert(v@.subrange(i as int, i + p@.len()) =~= p@);
    true
}

/// The last position at which `p` occurs in `v`, if any.
fn find_last(v: &[char], p: &[char]) -> (r: Option<usize>)
    ensures
        r is None <==> !occurs_in(v@, p@),
        r matches Some(i) ==> i == last_occurrence(v@, p@) && occurs_at(v@, p@, i as int),
{
    if p.len() > v.len() {
        return None;
    }
    let mut k: usize = v.len() - p.len();
    loop
        invariant
            p@.len() <= v@.len(),
            k + p@.len() <= v@.len(),
            forall|j: int| k < j && occurs_at(v@, p@, j) ==> false,
        ensures
            forall|j: int| occurs_at(v@, p@, j) ==> false,
        decreases k,
    {
        if matches_at(v, p, k) {
            proof {
                let w = k as int;
                lemma_last_occurrence_exists(v@, p@, w);
                let c = last_occurrence(v@, p@);
                assert(occurs_at(v@, p@, c) && forall|j: int| occurs_at(v@, p@, j) ==> j <= c);
            }
            return Some(k);
        }
        if k == 0 {
            break;
        }
        k = k - 1;
    }
    None
}

/// The text after the model's thinking: if `text` holds `</think>`, the part
/// after its last occurrence, trimmed; otherwise `text` unchanged.
pub fn remove_thought(text: &str) -> (r: &str)
    ensures
        r@ == thought_removed(text@),
{
    let v = chars_of(text);
    let p = think_close_tag();
    let n = v.len();
    let m = p.len();
    match find_last(v.as_slice(), p.as_slice()) {
        None => text,
        Some(i) => {
            assert(i + m <= n);
            let rest = text.substring_char(i + m, n);
            assert(rest@ =~= text@.skip(i + think_close().len()));
            trim(rest)
        },
    }
}

/// Bounds `(a, b)` such that `trimmed(x) == x[a..b]`.
pub proof fn lemma_trimmed_is_slice(x: Seq<char>) -> (ab: (int, int))
    ensures
        0 <= ab.0 <= ab.1 <= x.len(),
        trimmed(x) == x.subrange(ab.0, ab.1),
{
    let a = lemma_trim_front_is_suffix(x);
    let y = trim_front(x);
    let b = lemma_trim_back_is_prefix(y);
    assert(y.take(b) =~= x.subrange(a, a + b));
    (a, a + b)
}

proof fn lemma_trim_front_is_suffix(x: Seq<char>) -> (a: int)
    ensures
        0 <= a <= x.len(),
        trim_front(x) == x.skip(a),
    decreases x.len(),
{
    if x.len() > 0 && is_ws(x[0]) {
        let a1 = lemma_trim_front_is_suffix(x.drop_first());
        assert(x.drop_first().skip(a1) =~= x.skip(a1 + 1));
        a1 + 1
    } else {
        assert(x.skip(0) =~= x);
        0
    }
}

proof fn lemma_trim_back_is_prefix(y: Seq<char>) -> (b: int)
    ensures
        0 <= b <= y.len(),
        trim_back(y) == y.take(b),
    decreases y.len(),
{
    if y.len() > 0 && is_ws(y.last()) {
        let b1 = lemma_trim_back_is_prefix(y.drop_last());
        assert(y.drop_last().take(b1) =~= y.take(b1));
        b1
    } else {
        assert(y.take(y.len() as int) =~= y);
        y.len() as int
    }
}

/// After [`remove_thought`] no `</think>` is left, so applying it again changes
/// nothing.
pub proof fn lemma_remove_thought_idempotent(s: Seq<char>)
    ensures
        !occurs_in(thought_removed(s), think_close()) || !occurs_in(s, think_close()),
        thought_removed(thought_removed(s)) == thought_removed(s),
{
    let p = think_close();
    if occurs_in(s, p) {
        let c = last_occurrence(s, p);
        let w = choose|i: int| occurs_at(s, p, i);
        assert(occurs_at(s, p, c) && forall|j: int| occurs_at(s, p, j) ==> j <= c) by {
            lemma_last_occurrence_exists(s, p, w);
        }
        let k = c + p.len();
        let tail = s.skip(k);
        let ab = lemma_trimmed_is_slice(tail);
        let r = thought_removed(s);
        assert(r == tail.subrange(ab.0, ab.1));
        assert forall|j: int| !occurs_at(r, p, j) by {
            if occurs_at(r, p, j) {
                assert(s.subrange(k + ab.0 + j, k + ab.0 + j + p.len()) =~= r.subrange(j, j + p.len()));
                assert(occurs_at(s, p, k + ab.0 + j));
            }
        }
    }
}

/// Some occurrence of `p` in `s` is the last one.
proof fn lemma_last_occurrence_exists(s: Seq<char>, p: Seq<char>, w: int)
    requires
        occurs_at(s, p, w),
    ensures
        exists|i: int| occurs_at(s, p, i) && forall|j: int| occurs_at(s, p, j) ==> j <= i,
    decreases s.len() - w,
{
    if exists|j: int| occurs_at(s, p, j) && j > w {
        let j = choose|j: int| occurs_at(s, p, j) && j > w;
        lemma_last_occurrence_exists(s, p, j);
    }
}


// ---------------------------------------------------------------------------
// Fenced code blocks and tags
// ---------------------------------------------------------------------------

/// The opening fence of a code block at the start of the text, with its
/// optional language tag.
pub const CODEBLOCK_OPEN: &'static str = r"^\s*```[\w+-]*";

/// The closing fence of a code block at the end of the text.
pub const CODEBLOCK_CLOSE: &'static str = r"```\s*$";

/// Where the extracted region starts: after the first match of the opening
/// pattern, or at 0 when there is none.
pub open spec fn region_start(open: Option<Seq<(int, int)>>) -> int {
    match open {
        Some(m) => if m.len() > 0 { m[0].1 } else { 0 },
        None => 0,
    }
}

/// Where the extracted region ends: at the start of the last match of the
/// closing pattern, or at `len` when there is none.
pub open spec fn region_end(close: Option<Seq<(int, int)>>, len: int) -> int {
    match close {
        Some(m) => if m.len() > 0 { m.last().0 } else { len },
        None => len,
    }
}

/// Whether the region of `text` between the first match of `open` and the
/// last match of `close` is well formed: these bounds do not cross.
pub open spec fn region_ok(text: Seq<char>, open: Seq<char>, close: Seq<char>) -> bool {
    region_start(regex_matches(open, text)) <= region_end(
        regex_matches(close, text),
        text.len() as int,
    )
}

/// The trimmed text between the first match of `open` and the last match of
/// `close` (meaningful when [`region_ok`] holds).
pub open spec fn region_between(text: Seq<char>, open: Seq<char>, close: Seq<char>) -> Seq<char> {
    let a = region_start(regex_matches(open, text));
    let b = region_end(regex_matches(close, text), text.len() as int);
    trimmed(text.subrange(a, b))
}

/// The bounds of the region of `text` between the first match of `open` and
/// the last match of `close`.
fn region_bounds(text: &str, open: &str, close: &str) -> (r: (usize, usize))
    ensures
        r.0 == region_start(regex_matches(open@, text@)),
        r.1 == region_end(regex_matches(close@, text@), text@.len() as int),
        r.1 <= text@.len(),
        r.0 <= text@.len(),
{
    let n = text.unicode_len();
    let start = match find_matches(open, text) {
        Some(m) => if m.len() > 0 { m[0].1 } else { 0 },
        None => 0,
    };
    let end = match find_matches(close, text) {
        Some(m) => if m.len() > 0 { m[m.len() - 1].0 } else { n },
        None => n,
    };
    proof {
        if let Some(m) = regex_matches(open@, text@) {
            if m.len() > 0 {
                assert(spans_ordered(m, text@.len() as int));
                assert(0 <= m[0].0 <= m[0].1 <= text@.len());
            }
        }
        if let Some(m) = regex_matches(close@, text@) {
            if m.len() > 0 {
                assert(spans_ordered(m, text@.len() as int));
                assert(0 <= m[m.len() - 1].0 <= m[m.len() - 1].1 <= text@.len());
            }
        }
    }
    (start, end)
}

/// The trimmed region of `text` between the first match of `open` and the
/// last match of `close`.
fn extract_between<'a>(text: &'a str, open: &str, close: &str) -> (r: &'a str)
    requires
        region_ok(text@, open@, close@),
    ensures
        r@ == region_between(text@, open@, close@),
{
    let (start, end) = region_bounds(text, open, close);
    trim(text.substring_char(start, end))
}

/// The content of a fenced code block: the text between an opening fence
/// (three backticks and an optional language tag) at the very start and a
/// closing fence at the very end, trimmed. A missing fence leaves that side of
/// the text in place. The fences must not cross (as they do when the text is
/// a single fence).
pub fn extract_from_codeblock(json_markdown: &str) -> (r: &str)
    requires
        region_ok(json_markdown@, CODEBLOCK_OPEN@, CODEBLOCK_CLOSE@),
    ensures
        r@ == region_between(json_markdown@, CODEBLOCK_OPEN@, CODEBLOCK_CLOSE@),
{
    extract_between(json_markdown, CODEBLOCK_OPEN, CODEBLOCK_CLOSE)
}

/// The content of a fenced code block (see [`extract_from_codeblock`]), or
/// `None` when the fences cross.
pub fn try_extract_from_codeblock(json_markdown: &str) -> (r: Option<&str>)
    ensures
        r is Some <==> region_ok(json_markdown@, CODEBLOCK_OPEN@, CODEBLOCK_CLOSE@),
        r matches Some(x) ==> x@ == region_between(
            json_markdown@,
            CODEBLOCK_OPEN@,
            CODEBLOCK_CLOSE@,
        ),
{
    let (start, end) = region_bounds(json_markdown, CODEBLOCK_OPEN, CODEBLOCK_CLOSE);
    if start <= end {
        Some(extract_from_codeblock(json_markdown))
    } else {
        None
    }
}

/// The pattern `<tag>` with `tag` escaped, or `</tag>` when `closing`.
pub open spec fn tag_pattern(tag: Seq<char>, closing: bool) -> Seq<char> {
    (if closing { seq!['<', '/'] } else { seq!['<'] }) + regex_escaped(tag) + seq!['>']
}

fn tag_pattern_string(escaped: &str, closing: bool) -> (r: String)
    ensures
        r@ == (if closing { seq!['<', '/'] } else { seq!['<'] }) + escaped@ + seq!['>'],
{
    let mut v: Vec<char> = Vec::new();
    v.push('<');
    if closing {
        v.push('/');
    }
    let e = chars_of(escaped);
    let mut i: usize = 0;
    let ghost head = v@;
    while i < e.len()
        invariant
            i <= e@.len(),
            v@ == head + e@.take(i as int),
        decreases e@.len() - i,
    {
        v.push(e[i]);
        assert(v@ =~= head + e@.take(i + 1));
        i = i + 1;
    }
    v.push('>');
    assert(e@.take(e@.len() as int) =~= e@);
    assert(v@ =~= (if closing { seq!['<', '/'] } else { seq!['<'] }) + escaped@ + seq!['>']);
    string_of(v.as_slice())
}

/// The content of the `tag` element: the text between the first `<tag>` and
/// the last `</tag>`, trimmed. A missing tag leaves that side of the text in
/// place. The tags must not cross.
pub fn extract_from_tag<'a>(text: &'a str, tag: &str) -> (r: &'a str)
    requires
        region_ok(text@, tag_pattern(tag@, false), tag_pattern(tag@, true)),
    ensures
        r@ == region_between(text@, tag_pattern(tag@, false), tag_pattern(tag@, true)),
{
    let escaped = escape(tag);
    let open = tag_pattern_string(escaped.as_str(), false);
    let close = tag_pattern_string(escaped.as_str(), true);
    extract_between(text, open.as_str(), close.as_str())
}

/// The content of the `tag` element (see [`extract_from_tag`]), or `None`
/// when the tags cross.
pub fn try_extract_from_tag<'a>(text: &'a str, tag: &str) -> (r: Option<&'a str>)
    ensures
        r is Some <==> region_ok(text@, tag_pattern(tag@, false), tag_pattern(tag@, true)),
        r matches Some(x) ==> x@ == region_between(
            text@,
            tag_pattern(tag@, false),
            tag_pattern(tag@, true),
        ),
{
    let escaped = escape(tag);
    let open = tag_pattern_string(escaped.as_str(), false);
    let close = tag_pattern_string(escaped.as_str(), true);
    let (start, end) = region_bounds(text, open.as_str(), close.as_str());
    if start <= end {
        Some(extract_from_tag(text, tag))
    } else {
        None
    }
}

// ---------------------------------------------------------------------------
// JSON object
// ---------------------------------------------------------------------------

/// Whether `i` is the first position of `c` in `s`.
pub open spec fn is_first_index(s: Seq<char>, c: char, i: int) -> bool {
    0 <= i < s.len() && s[i] == c && forall|j: int| 0 <= j < i ==> s[j] != c
}

/// Whether `i` is the last position of `c` in `s`.
pub open spec fn is_last_index(s: Seq<char>, c: char, i: int) -> bool {
    0 <= i < s.len() && s[i] == c && forall|j: int| i < j < s.len() ==> s[j] != c
}

/// Where the JSON object starts: at the first `{`, or at 0 when there is none.
pub open spec fn json_start(s: Seq<char>) -> int {
    if exists|i: int| is_first_index(s, '{', i) {
        choose|i: int| is_first_index(s, '{', i)
    } else {
        0
    }
}

/// Where the JSON object ends (exclusive): after the last `}`, or at the end
/// when there is none.
pub open spec fn json_end(s: Seq<char>) -> int {
    if exists|i: int| is_last_index(s, '}', i) {
        (choose|i: int| is_last_index(s, '}', i)) + 1
    } else {
        s.len() as int
    }
}

/// What [`extract_json`] returns.
pub open spec fn json_extracted(s: Seq<char>) -> Seq<char> {
    if s.len() == 0 {
        s
    } else {
        s.subrange(json_start(s), json_end(s))
    }
}

/// The first position of `c` in `v`, if any.
fn find_first_char(v: &[char], c: char) -> (r: Option<usize>)
    ensures
        r matches Some(i) ==> is_first_index(v@, c, i as int),
        r is None ==> forall|j: int| 0 <= j < v@.len() ==> v@[j] != c,
{
    let mut i: usize = 0;
    while i < v.len()
        invariant
            i <= v@.len(),
            forall|j: int| 0 <= j < i ==> v@[j] != c,
        decreases v@.len() - i,
    {
        if v[i] == c {
            return Some(i);
        }
        i = i + 1;
    }
    None
}

/// The last position of `c` in `v`, if any.
fn find_last_char(v: &[char], c: char) -> (r: Option<usize>)
    ensures
        r matches Some(i) ==> is_last_index(v@, c, i as int),
        r is None ==> forall|j: int| 0 <= j < v@.len() ==> v@[j] != c,
{
    let mut k: usize = v.len();
    while k > 0
        invariant
            k <= v@.len(),
            forall|j: int| k <= j < v@.len() ==> v@[j] != c,
        decreases k,
    {
        if v[k - 1] == c {
            return Some(k - 1);
        }
        k = k - 1;
    }
    None
}

/// The JSON object embedded in `s`: from its first `{` to its last `}`. A
/// missing brace leaves that side of the text in place; empty text is returned
/// as it is. The text must not have its first `{` more than one character
/// after its last `}` (the slice would be reversed).
pub fn extract_json(s: &str) -> (r: &str)
    requires
        s@.len() == 0 || json_start(s@) <= json_end(s@),
    ensures
        r@ == json_extracted(s@),
{
    let v = chars_of(s);
    let n = v.len();
    if n == 0 {
        return s;
    }
    let start = match find_first_char(v.as_slice(), '{') {
        Some(i) => i,
        None => 0,
    };
    let end = match find_last_char(v.as_slice(), '}') {
        Some(j) => j + 1,
        None => n,
    };
    proof {
        lemma_json_bounds(v@);
    }
    s.substring_char(start, end)
}

/// The JSON object embedded in `s` (see [`extract_json`]), or `None` when its
/// first `{` comes more than one character after its last `}`.
pub fn try_extract_json(s: &str) -> (r: Option<&str>)
    ensures
        r is Some <==> (s@.len() == 0 || json_start(s@) <= json_end(s@)),
        r matches Some(x) ==> x@ == json_extracted(s@),
{
    let v = chars_of(s);
    let n = v.len();
    if n == 0 {
        return Some(extract_json(s));
    }
    let start = match find_first_char(v.as_slice(), '{') {
        Some(i) => i,
        None => 0,
    };
    let end = match find_last_char(v.as_slice(), '}') {
        Some(j) => j + 1,
        None => n,
    };
    proof {
        lemma_json_bounds(v@);
        if exists|i: int| 0 <= i < v@.len() && v@[i] == '{' {
            let w = choose|i: int| 0 <= i < v@.len() && v@[i] == '{';
            assert(v@[w] == '{');
        }
        if exists|i: int| 0 <= i < v@.len() && v@[i] == '}' {
            let w = choose|i: int| 0 <= i < v@.len() && v@[i] == '}';
            assert(v@[w] == '}');
        }
        assert(start == json_start(v@));
        assert(end == json_end(v@));
    }
    if start <= end {
        Some(extract_json(s))
    } else {
        None
    }
}

/// The bounds of the JSON object, characterised.
pub proof fn lemma_json_bounds(s: Seq<char>)
    ensures
        0 <= json_start(s) <= s.len(),
        0 <= json_end(s) <= s.len(),
        (exists|i: int| 0 <= i < s.len() && s[i] == '{') ==> is_first_index(s, '{', json_start(s)),
        !(exists|i: int| 0 <= i < s.len() && s[i] == '{') ==> json_start(s) == 0,
        (exists|i: int| 0 <= i < s.len() && s[i] == '}') ==> is_last_index(s, '}', json_end(s) - 1),
        !(exists|i: int| 0 <= i < s.len() && s[i] == '}') ==> json_end(s) == s.len(),
{
    if exists|i: int| 0 <= i < s.len() && s[i] == '{' {
        let w = choose|i: int| 0 <= i < s.len() && s[i] == '{';
        lemma_first_exists(s, '{', w);
    }
    if exists|i: int| 0 <= i < s.len() && s[i] == '}' {
        let w = choose|i: int| 0 <= i < s.len() && s[i] == '}';
        lemma_last_exists(s, '}', w);
    }
}

proof fn lemma_first_exists(s: Seq<char>, c: char, w: int)
    requires
        0 <= w < s.len(),
        s[w] == c,
    ensures
        exists|i: int| is_first_index(s, c, i),
    decreases w,
{
    if exists|j: int| 0 <= j < w && s[j] == c {
        let j = choose|j: int| 0 <= j < w && s[j] == c;
        lemma_first_exists(s, c, j);
    } else {
        assert(is_first_index(s, c, w));
    }
}

/// [`extract_json`] cuts the text at its braces: it returns a piece of the
/// text that starts at the first `{` (or at the start when there is none) and
/// ends with the last `}` (or at the end when there is none), so that no `{`
/// comes before the piece and no `}` after it.
pub proof fn lemma_extract_json_cuts_at_braces(s: Seq<char>)
    requires
        s.len() > 0,
        json_start(s) <= json_end(s),
    ensures
        ({
            let r = json_extracted(s);
            let a = json_start(s);
            let b = json_end(s);
            &&& s == s.take(a) + r + s.skip(b)
            &&& forall|j: int| 0 <= j < a ==> s[j] != '{'
            &&& forall|j: int| b <= j < s.len() ==> s[j] != '}'
            &&& s.contains('{') && r.len() > 0 ==> r[0] == '{'
            &&& s.contains('}') && r.len() > 0 ==> r.last() == '}'
        }),
{
    lemma_json_bounds(s);
    let a = json_start(s);
    let b = json_end(s);
    let r = json_extracted(s);
    assert(s =~= s.take(a) + r + s.skip(b));
    if r.len() > 0 {
        assert(r[0] == s[a]);
        assert(r.last() == s[b - 1]);
    }
    if s.contains('{') {
        let w = choose|i: int| 0 <= i < s.len() && s[i] == '{';
        assert(s[w] == '{');
    }
    if s.contains('}') {
        let w = choose|i: int| 0 <= i < s.len() && s[i] == '}';
        assert(s[w] == '}');
    }
}

proof fn lemma_last_exists(s: Seq<char>, c: char, w: int)
    requires
        0 <= w < s.len(),
        s[w] == c,
    ensures
        exists|i: int| is_last_index(s, c, i),
    decreases s.len() - w,
{
    if exists|j: int| w < j < s.len() && s[j] == c {
        let j = choose|j: int| w < j < s.len() && s[j] == c;
        lemma_last_exists(s, c, j);
    } else {
        assert(is_last_index(s, c, w));
    }
}

/// Extracting the JSON object from an extracted object changes nothing.
pub proof fn lemma_extract_json_idempotent(s: Seq<char>)
    requires
        s.len() == 0 || json_start(s) <= json_end(s),
    ensures
        json_extracted(s).len() == 0 || json_start(json_extracted(s)) <= json_end(json_extracted(s)),
        json_extracted(json_extracted(s)) == json_extracted(s),
{
    if s.len() > 0 {
        lemma_json_bounds(s);
        let r = json_extracted(s);
        let a = json_start(s);
        let b = json_end(s);
        if r.len() > 0 {
            lemma_json_bounds(r);
            if exists|i: int| 0 <= i < s.len() && s[i] == '{' {
                assert(r[0] == '{');
                assert(is_first_index(r, '{', json_start(r)));
                assert(json_start(r) == 0);
            } else {
                assert forall|i: int| 0 <= i < r.len() implies r[i] != '{' by {
                    assert(r[i] == s[a + i]);
                }
            }
            if exists|i: int| 0 <= i < s.len() && s[i] == '}' {
                assert(r[r.len() - 1] == '}');
                assert(is_last_index(r, '}', json_end(r) - 1));
                assert(json_end(r) == r.len());
            } else {
                assert forall|i: int| 0 <= i < r.len() implies r[i] != '}' by {
                    assert(r[i] == s[a + i]);
                }
            }
            assert(r.subrange(0, r.len() as int) =~= r);
        }
    }
}

} // verus!
