//! Repairs of almost-JSON text: newlines inside strings, trailing commas and
//! unclosed brackets.
//!
//! Each repair scans the text once, tracking whether the scan is inside a
//! string literal and whether the previous character was an escaping
//! backslash. The scans are specified as left folds over the characters.
use vstd::prelude::*;
use crate::pattern::{find_matches, regex_matches, spans_ordered};
use crate::text::{char_is_whitespace, chars_of, is_ws, string_of};

verus! {

broadcast use vstd::seq_lib::group_seq_properties;

// ---------------------------------------------------------------------------
// fix_text
// ---------------------------------------------------------------------------

/// A backslash followed by any character but a newline; the character is
/// captured.
pub const ESCAPE_SEQUENCE: &'static str = r"\\(.)";

/// The replacement of an escape sequence whose escaped part is `x`: `n`, `t`
/// and `r` become newline, tab and carriage return; anything else stands for
/// itself.
pub open spec fn unescaped(x: Seq<char>) -> Seq<char> {
    if x == seq!['n'] {
        seq!['\n']
    } else if x == seq!['t'] {
        seq!['\t']
    } else if x == seq!['r'] {
        seq!['\r']
    } else {
        x
    }
}

/// The escaped part of the match `sp` of an escape sequence in `t`: the match
/// without its leading backslash.
pub open spec fn escaped_part(t: Seq<char>, sp: (int, int)) -> Seq<char> {
    if sp.0 < sp.1 {
        t.subrange(sp.0 + 1, sp.1)
    } else {
        Seq::empty()
    }
}

/// Where the text after the first `k` matches starts.
pub open spec fn after_match(spans: Seq<(int, int)>, k: int) -> int {
    if k <= 0 {
        0
    } else {
        spans[k - 1].1
    }
}

/// The text up to the end of the `k`-th match, with the first `k` matches
/// replaced.
pub open spec fn replaced_upto(t: Seq<char>, spans: Seq<(int, int)>, k: int) -> Seq<char>
    decreases k,
{
    if k <= 0 {
        Seq::empty()
    } else {
        replaced_upto(t, spans, k - 1) + t.subrange(after_match(spans, k - 1), spans[k - 1].0)
            + unescaped(escaped_part(t, spans[k - 1]))
    }
}

/// What [`fix_text`] returns: `t` with every escape sequence replaced.
pub open spec fn escapes_fixed(t: Seq<char>) -> Seq<char> {
    match regex_matches(ESCAPE_SEQUENCE@, t) {
        Some(spans) => replaced_upto(t, spans, spans.len() as int) + t.skip(
            after_match(spans, spans.len() as int),
        ),
        None => t,
    }
}

/// Appends `v[a..b]` to `out`.
pub(crate) fn push_range(out: &mut Vec<char>, v: &[char], a: usize, b: usize)
    requires
        a <= b <= v@.len(),
    ensures
        final(out)@ == old(out)@ + v@.subrange(a as int, b as int),
{
    let mut i = a;
    while i < b
        invariant
            a <= i <= b <= v@.len(),
            out@ == old(out)@ + v@.subrange(a as int, i as int),
        decreases b - i,
    {
        out.push(v[i]);
        assert(out@ =~= old(out)@ + v@.subrange(a as int, i + 1));
        i = i + 1;
    }
}

/// Resolves escape sequences written out in text: `\n`, `\t` and `\r` become
/// newline, tab and carriage return, and a backslash before any other
/// character (but a newline) is dropped.
pub fn fix_text(text: &str) -> (r: String)
    ensures
        r@ == escapes_fixed(text@),
{
    let v = chars_of(text);
    let n = v.len();
    let spans = match find_matches(ESCAPE_SEQUENCE, text) {
        Some(m) => m,
        None => {
            return string_of(v.as_slice());
        },
    };
    let ghost sp = regex_matches(ESCAPE_SEQUENCE@, text@)->0;
    assert(spans_ordered(sp, n as int));
    let mut out: Vec<char> = Vec::new();
    let mut prev: usize = 0;
    let mut k: usize = 0;
    while k < spans.len()
        invariant
            n == v@.len(),
            v@ == text@,
            sp == crate::pattern::spans_view(spans@),
            spans_ordered(sp, n as int),
            k <= spans@.len(),
            prev == after_match(sp, k as int),
            prev <= n,
            out@ == replaced_upto(v@, sp, k as int),
        decreases spans@.len() - k,
    {
        let (s, e) = spans[k];
        assert(sp[k as int] == (s as int, e as int));
        assert(prev <= s) by {
            if k > 0 {
                assert(sp[k - 1].1 <= sp[k as int].0);
            }
        }
        push_range(&mut out, v.as_slice(), prev, s);
        let ghost before = out@;
        let ghost g = escaped_part(v@, (s as int, e as int));
        if s < e {
            if e - s == 2 && v[s + 1] == 'n' {
                out.push('\n');
                assert(g =~= seq!['n']);
                assert(out@ =~= before + unescaped(g));
            } else if e - s == 2 && v[s + 1] == 't' {
                out.push('\t');
                assert(g =~= seq!['t']);
                assert(g != seq!['n']) by { assert(seq!['n'][0] == 'n'); }
                assert(out@ =~= before + unescaped(g));
            } else if e - s == 2 && v[s + 1] == 'r' {
                out.push('\r');
                assert(g =~= seq!['r']);
                assert(g != seq!['n']) by { assert(seq!['n'][0] == 'n'); }
                assert(g != seq!['t']) by { assert(seq!['t'][0] == 't'); }
                assert(out@ =~= before + unescaped(g));
            } else {
                push_range(&mut out, v.as_slice(), s + 1, e);
                proof {
                    if e - s == 2 {
                        assert(g[0] == v@[s + 1]);
                    }
                    assert(g != seq!['n'] && g != seq!['t'] && g != seq!['r']) by {
                        if g.len() == 1 {
                            assert(g[0] == v@[s + 1]);
                        }
                    }
                    assert(unescaped(g) == g);
                    assert(out@ =~= before + unescaped(g));
                }
            }
        } else {
            assert(g.len() == 0);
            assert(unescaped(g) =~= g);
            assert(out@ =~= before + unescaped(g));
        }
        assert(out@ =~= before + unescaped(g));
        prev = e;
        k = k + 1;
    }
    push_range(&mut out, v.as_slice(), prev, n);
    assert(v@.subrange(prev as int, n as int) =~= v@.skip(prev as int));
    string_of(out.as_slice())
}

/// Scanner state: `(inside_string, escaped)`.
pub type Scan = (bool, bool);

// ---------------------------------------------------------------------------
// remove_multiline
// ---------------------------------------------------------------------------

/// One step of the newline scan: the new state and the characters emitted for `c`.
pub open spec fn multiline_step(st: Scan, c: char) -> (Scan, Seq<char>) {
    let (inside, escaped) = st;
    if c == '"' && !escaped {
        ((!inside, escaped), seq![c])
    } else if c == '\\' && inside {
        ((inside, !escaped), seq![c])
    } else if c == '\n' && inside {
        ((inside, escaped), seq!['\\', 'n'])
    } else {
        ((inside, false), seq![c])
    }
}

/// State of the newline scan after reading `s`.
pub open spec fn multiline_state(s: Seq<char>) -> Scan
    decreases s.len(),
{
    if s.len() == 0 {
        (false, false)
    } else {
        multiline_step(multiline_state(s.drop_last()), s.last()).0
    }
}

/// Output of the newline scan over `s`.
pub open spec fn multiline_output(s: Seq<char>) -> Seq<char>
    decreases s.len(),
{
    if s.len() == 0 {
        Seq::empty()
    } else {
        multiline_output(s.drop_last()) + multiline_step(multiline_state(s.drop_last()), s.last()).1
    }
}

/// Replaces every newline that stands inside a JSON string literal by the two
/// characters `\n`; everything else is copied.
pub fn remove_multiline(s: &str) -> (r: String)
    ensures
        r@ == multiline_output(s@),
{
    let v = chars_of(s);
    let n = v.len();
    let mut out: Vec<char> = Vec::new();
    let mut inside_string = false;
    let mut escaped = false;
    let mut i: usize = 0;
    while i < n
        invariant
            i <= n == v@.len(),
            v@ == s@,
            out@ == multiline_output(v@.take(i as int)),
            (inside_string, escaped) == multiline_state(v@.take(i as int)),
        decreases n - i,
    {
        let c = v[i];
        assert(v@.take(i + 1).drop_last() =~= v@.take(i as int));
        if c == '"' && !escaped {
            inside_string = !inside_string;
            out.push(c);
        } else if c == '\\' && inside_string {
            escaped = !escaped;
            out.push(c);
        } else if c == '\n' && inside_string {
            out.push('\\');
            out.push('n');
        } else {
            escaped = false;
            out.push(c);
        }
        proof {
            let e = multiline_step(multiline_state(v@.take(i as int)), c).1;
            assert(out@ =~= multiline_output(v@.take(i as int)) + e);
        }
        i = i + 1;
    }
    assert(v@.take(n as int) =~= v@);
    string_of(out.as_slice())
}

/// Text without newline characters is left unchanged by [`remove_multiline`].
pub proof fn lemma_remove_multiline_keeps_single_line(s: Seq<char>)
    requires
        !s.contains('\n'),
    ensures
        multiline_output(s) == s,
    decreases s.len(),
{
    if s.len() > 0 {
        assert(!s.drop_last().contains('\n')) by {
            if s.drop_last().contains('\n') {
                let k = choose|k: int| 0 <= k < s.drop_last().len() && s.drop_last()[k] == '\n';
                assert(s[k] == '\n');
            }
        }
        lemma_remove_multiline_keeps_single_line(s.drop_last());
        assert(s.last() != '\n') by {
            assert(s[s.len() - 1] == s.last());
        }
        assert(s.drop_last().push(s.last()) =~= s);
    }
}

/// Whether `c` is a double quote.
pub open spec fn is_quote(c: char) -> bool {
    c == '"'
}

/// Quotes are neither added nor removed by [`remove_multiline`], so the string
/// literals of the text keep their bounds.
pub proof fn lemma_remove_multiline_keeps_quotes(s: Seq<char>)
    ensures
        multiline_output(s).filter(|c: char| is_quote(c)) == s.filter(|c: char| is_quote(c)),
    decreases s.len(),
{
    reveal(Seq::filter);
    if s.len() > 0 {
        lemma_remove_multiline_keeps_quotes(s.drop_last());
        let e = multiline_step(multiline_state(s.drop_last()), s.last()).1;
        Seq::filter_distributes_over_add(
            multiline_output(s.drop_last()),
            e,
            |c: char| is_quote(c),
        );
        assert(e.filter(|c: char| is_quote(c)) =~= seq![s.last()].filter(|c: char| is_quote(c))) by {
            reveal_with_fuel(Seq::filter, 3);
            assert(seq!['\\', 'n'].drop_last() =~= seq!['\\']);
            assert(seq!['\\'].drop_last() =~= Seq::<char>::empty());
            assert(seq![s.last()].drop_last() =~= Seq::<char>::empty());
        }
        Seq::filter_distributes_over_add(
            s.drop_last(),
            seq![s.last()],
            |c: char| is_quote(c),
        );
        assert(s.drop_last() + seq![s.last()] =~= s);
    }
}


// ---------------------------------------------------------------------------
// JSON text as pieces
// ---------------------------------------------------------------------------

/// Whether `t` is the inside of a JSON string literal: no quote and no raw
/// newline stands on its own, and each backslash escapes exactly the one
/// character after it (which is not a newline).
pub open spec fn json_string_body(t: Seq<char>) -> bool
    decreases t.len(),
{
    if t.len() == 0 {
        true
    } else if t[0] == '\\' {
        t.len() >= 2 && t[1] != '\n' && json_string_body(t.skip(2))
    } else {
        t[0] != '"' && t[0] != '\n' && json_string_body(t.skip(1))
    }
}

/// Whether `p` is a JSON string literal: a string body between quotes.
pub open spec fn is_string_literal(p: Seq<char>) -> bool {
    &&& p.len() >= 2
    &&& p[0] == '"'
    &&& p.last() == '"'
    &&& json_string_body(p.subrange(1, p.len() - 1))
}

/// Whether `p` is a piece of JSON text: a string literal, or one character
/// (other than a quote) outside any string.
pub open spec fn json_piece(p: Seq<char>) -> bool {
    is_string_literal(p) || (p.len() == 1 && p[0] != '"')
}

/// The text made of `pieces`, in order.
pub open spec fn pieces_text(pieces: Seq<Seq<char>>) -> Seq<char>
    decreases pieces.len(),
{
    if pieces.len() == 0 {
        Seq::empty()
    } else {
        pieces_text(pieces.drop_last()) + pieces.last()
    }
}

/// The text made of `pieces` without their string literals: the characters
/// that stand outside strings.
pub open spec fn outside_text(pieces: Seq<Seq<char>>) -> Seq<char>
    decreases pieces.len(),
{
    if pieces.len() == 0 {
        Seq::empty()
    } else {
        outside_text(pieces.drop_last()) + if is_string_literal(pieces.last()) {
            Seq::empty()
        } else {
            pieces.last()
        }
    }
}

/// `t` splits into its first `k` characters and the rest.
proof fn lemma_split_front(t: Seq<char>, k: int)
    requires
        0 <= k <= t.len(),
    ensures
        t == t.take(k) + t.skip(k),
{
    assert(t =~= t.take(k) + t.skip(k));
}

/// The newline scan started in `st`, after reading `t`: the state and what
/// was emitted.
pub open spec fn multiline_run(st: Scan, t: Seq<char>) -> (Scan, Seq<char>)
    decreases t.len(),
{
    if t.len() == 0 {
        (st, Seq::empty())
    } else {
        let r = multiline_run(st, t.drop_last());
        let e = multiline_step(r.0, t.last());
        (e.0, r.1 + e.1)
    }
}

proof fn lemma_multiline_run_start(t: Seq<char>)
    ensures
        multiline_run((false, false), t) == (multiline_state(t), multiline_output(t)),
    decreases t.len(),
{
    if t.len() > 0 {
        lemma_multiline_run_start(t.drop_last());
    }
}

proof fn lemma_multiline_run_concat(st: Scan, s: Seq<char>, t: Seq<char>)
    ensures
        multiline_run(st, s + t).0 == multiline_run(multiline_run(st, s).0, t).0,
        multiline_run(st, s + t).1 == multiline_run(st, s).1 + multiline_run(
            multiline_run(st, s).0,
            t,
        ).1,
    decreases t.len(),
{
    if t.len() == 0 {
        assert(s + t =~= s);
        assert(multiline_run(st, s).1 + Seq::<char>::empty() =~= multiline_run(st, s).1);
    } else {
        assert((s + t).drop_last() =~= s + t.drop_last());
        assert((s + t).last() == t.last());
        lemma_multiline_run_concat(st, s, t.drop_last());
        let a = multiline_run(st, s).1;
        let m = multiline_run(multiline_run(st, s).0, t.drop_last()).1;
        let e = multiline_step(multiline_run(multiline_run(st, s).0, t.drop_last()).0, t.last()).1;
        assert(a + m + e =~= a + (m + e));
    }
}

proof fn lemma_multiline_run_one(st: Scan, c: char)
    ensures
        multiline_run(st, seq![c]) == (multiline_step(st, c).0, multiline_step(st, c).1),
{
    let one = seq![c];
    assert(one.drop_last() =~= Seq::<char>::empty());
    assert(multiline_run(st, one.drop_last()) == (st, Seq::<char>::empty()));
    assert(one.last() == c);
    assert(Seq::<char>::empty() + multiline_step(st, c).1 =~= multiline_step(st, c).1);
}

/// Inside a string, a string body is read back to the same state and copied.
proof fn lemma_multiline_body(t: Seq<char>)
    requires
        json_string_body(t),
    ensures
        multiline_run((true, false), t) == ((true, false), t),
    decreases t.len(),
{
    let st = (true, false);
    if t.len() > 0 {
        let k: int = if t[0] == '\\' { 2 } else { 1 };
        lemma_split_front(t, k);
        lemma_multiline_run_concat(st, t.take(k), t.skip(k));
        lemma_multiline_body(t.skip(k));
        if k == 2 {
            assert(t.take(2) =~= seq![t[0]] + seq![t[1]]);
            lemma_multiline_run_concat(st, seq![t[0]], seq![t[1]]);
            lemma_multiline_run_one(st, t[0]);
            lemma_multiline_run_one((true, true), t[1]);
        } else {
            assert(t.take(1) =~= seq![t[0]]);
            lemma_multiline_run_one(st, t[0]);
        }
        assert(t.take(k) + t.skip(k) == t);
    }
}

/// Outside strings, a string literal is read back to the same state and
/// copied.
proof fn lemma_multiline_literal(p: Seq<char>)
    requires
        is_string_literal(p),
    ensures
        multiline_run((false, false), p) == ((false, false), p),
{
    let body = p.subrange(1, p.len() - 1);
    assert(p =~= seq![p[0]] + body + seq![p.last()]);
    lemma_multiline_run_concat((false, false), seq![p[0]] + body, seq![p.last()]);
    lemma_multiline_run_concat((false, false), seq![p[0]], body);
    lemma_multiline_run_one((false, false), p[0]);
    lemma_multiline_body(body);
    lemma_multiline_run_one((true, false), p.last());
}

/// Whether `t` is the inside of a string literal whose lines were broken by
/// raw newlines: no quote stands on its own, and each backslash escapes
/// exactly the one character after it (which is not a newline).
pub open spec fn raw_string_body(t: Seq<char>) -> bool
    decreases t.len(),
{
    if t.len() == 0 {
        true
    } else if t[0] == '\\' {
        t.len() >= 2 && t[1] != '\n' && raw_string_body(t.skip(2))
    } else {
        t[0] != '"' && raw_string_body(t.skip(1))
    }
}

/// `t` with each raw newline written as the two characters `\n`.
pub open spec fn newlines_escaped(t: Seq<char>) -> Seq<char>
    decreases t.len(),
{
    if t.len() == 0 {
        Seq::empty()
    } else {
        (if t[0] == '\n' {
            seq!['\\', 'n']
        } else {
            seq![t[0]]
        }) + newlines_escaped(t.skip(1))
    }
}

proof fn lemma_multiline_raw_body(t: Seq<char>)
    requires
        raw_string_body(t),
    ensures
        multiline_run((true, false), t) == ((true, false), newlines_escaped(t)),
    decreases t.len(),
{
    let st = (true, false);
    if t.len() > 0 {
        let k: int = if t[0] == '\\' { 2 } else { 1 };
        lemma_split_front(t, k);
        lemma_multiline_run_concat(st, t.take(k), t.skip(k));
        lemma_multiline_raw_body(t.skip(k));
        if k == 2 {
            assert(t.take(2) =~= seq![t[0]] + seq![t[1]]);
            lemma_multiline_run_concat(st, seq![t[0]], seq![t[1]]);
            lemma_multiline_run_one(st, t[0]);
            lemma_multiline_run_one((true, true), t[1]);
            let u = t.skip(1);
            assert(u[0] == t[1]);
            assert(u.skip(1) =~= t.skip(2));
            assert(newlines_escaped(u) == seq![t[1]] + newlines_escaped(t.skip(2)));
            assert(newlines_escaped(t) == seq![t[0]] + newlines_escaped(u));
            assert(seq![t[0]] + seq![t[1]] + newlines_escaped(t.skip(2)) =~= seq![t[0]] + (seq![
                t[1],
            ] + newlines_escaped(t.skip(2))));
        } else {
            assert(t.take(1) =~= seq![t[0]]);
            lemma_multiline_run_one(st, t[0]);
        }
    }
}

/// [`remove_multiline`] repairs a string literal broken over lines: read
/// outside any string, a literal whose body holds raw newlines comes out with
/// each of them written as `\n` and nothing else changed, and the scan ends
/// outside the string again.
pub proof fn lemma_remove_multiline_escapes_string_newlines(s: Seq<char>, t: Seq<char>)
    requires
        multiline_state(s) == (false, false),
        raw_string_body(t),
    ensures
        multiline_state(s + (seq!['"'] + t + seq!['"'])) == (false, false),
        multiline_output(s + (seq!['"'] + t + seq!['"'])) == multiline_output(s) + (seq!['"']
            + newlines_escaped(t) + seq!['"']),
{
    let lit = seq!['"'] + t + seq!['"'];
    lemma_multiline_run_start(s);
    lemma_multiline_run_start(s + lit);
    lemma_multiline_run_concat((false, false), s, lit);
    lemma_multiline_run_concat((false, false), seq!['"'] + t, seq!['"']);
    lemma_multiline_run_concat((false, false), seq!['"'], t);
    lemma_multiline_run_one((false, false), '"');
    lemma_multiline_raw_body(t);
    lemma_multiline_run_one((true, false), '"');
}

/// [`remove_multiline`] leaves JSON text as it is: text made of string
/// literals and characters outside strings (where a raw newline may stand) is
/// copied unchanged, and the scan ends outside any string with no pending
/// escape. A raw newline is replaced only inside a string literal, and an
/// escape covers only the one character after its backslash.
pub proof fn lemma_remove_multiline_keeps_json(pieces: Seq<Seq<char>>)
    requires
        forall|i: int| 0 <= i < pieces.len() ==> json_piece(#[trigger] pieces[i]),
    ensures
        multiline_output(pieces_text(pieces)) == pieces_text(pieces),
        multiline_state(pieces_text(pieces)) == (false, false),
    decreases pieces.len(),
{
    let t = pieces_text(pieces);
    lemma_multiline_run_start(t);
    if pieces.len() > 0 {
        let init = pieces.drop_last();
        let p = pieces.last();
        assert(json_piece(pieces[pieces.len() - 1]));
        assert forall|i: int| 0 <= i < init.len() implies json_piece(#[trigger] init[i]) by {
            assert(json_piece(pieces[i]));
        }
        lemma_remove_multiline_keeps_json(init);
        let s = pieces_text(init);
        lemma_multiline_run_start(s);
        lemma_multiline_run_concat((false, false), s, p);
        if is_string_literal(p) {
            lemma_multiline_literal(p);
        } else {
            assert(p =~= seq![p[0]]);
            lemma_multiline_run_one((false, false), p[0]);
        }
    }
}

// ---------------------------------------------------------------------------
// remove_trailing_commas
// ---------------------------------------------------------------------------

/// The first character of `t` that is not whitespace, if any.
pub open spec fn next_non_ws(t: Seq<char>) -> Option<char>
    decreases t.len(),
{
    if t.len() == 0 {
        None
    } else if is_ws(t[0]) {
        next_non_ws(t.drop_first())
    } else {
        Some(t[0])
    }
}

/// Whether a comma followed by `rest` is trailing: the next non-whitespace
/// character closes an object or an array.
pub open spec fn closes_next(rest: Seq<char>) -> bool {
    next_non_ws(rest) == Some('}') || next_non_ws(rest) == Some(']')
}

/// One step of the comma scan: the new state and the characters emitted for `c`,
/// where `rest` is the text after `c`.
pub open spec fn comma_step(st: Scan, c: char, rest: Seq<char>) -> (Scan, Seq<char>) {
    let (inside, escaped) = st;
    if c == '"' && !escaped {
        ((!inside, escaped), seq![c])
    } else if c == '\\' && inside {
        ((inside, !escaped), seq![c])
    } else if c == ',' && !inside {
        if closes_next(rest) {
            ((inside, escaped), Seq::empty())
        } else {
            ((inside, escaped), seq![c])
        }
    } else {
        ((inside, false), seq![c])
    }
}

/// State of the comma scan over `s` after its first `i` characters.
pub open spec fn comma_state(s: Seq<char>, i: int) -> Scan
    decreases i,
{
    if i <= 0 {
        (false, false)
    } else {
        comma_step(comma_state(s, i - 1), s[i - 1], s.skip(i)).0
    }
}

/// Output of the comma scan over the first `i` characters of `s`.
pub open spec fn comma_output(s: Seq<char>, i: int) -> Seq<char>
    decreases i,
{
    if i <= 0 {
        Seq::empty()
    } else {
        comma_output(s, i - 1) + comma_step(comma_state(s, i - 1), s[i - 1], s.skip(i)).1
    }
}

/// Computes `next_non_ws(v[from..])`.
fn next_non_ws_from(v: &[char], from: usize) -> (r: Option<char>)
    requires
        from <= v@.len(),
    ensures
        r == next_non_ws(v@.skip(from as int)),
{
    let mut j = from;
    while j < v.len() && char_is_whitespace(v[j])
        invariant
            from <= j <= v@.len(),
            next_non_ws(v@.skip(from as int)) == next_non_ws(v@.skip(j as int)),
        decreases v@.len() - j,
    {
        assert(v@.skip(j as int).drop_first() =~= v@.skip(j + 1));
        j = j + 1;
    }
    if j < v.len() {
        Some(v[j])
    } else {
        None
    }
}

/// Removes every comma outside string literals whose next non-whitespace
/// character is `}` or `]`.
pub fn remove_trailing_commas(s: &str) -> (r: String)
    ensures
        r@ == comma_output(s@, s@.len() as int),
{
    let v = chars_of(s);
    let n = v.len();
    let mut out: Vec<char> = Vec::new();
    let mut inside_string = false;
    let mut escaped = false;
    let mut i: usize = 0;
    while i < n
        invariant
            i <= n == v@.len(),
            v@ == s@,
            out@ == comma_output(v@, i as int),
            (inside_string, escaped) == comma_state(v@, i as int),
        decreases n - i,
    {
        let c = v[i];
        if c == '"' && !escaped {
            inside_string = !inside_string;
            out.push(c);
        } else if c == '\\' && inside_string {
            escaped = !escaped;
            out.push(c);
        } else if c == ',' && !inside_string {
            let next = next_non_ws_from(v.as_slice(), i + 1);
            if next == Some('}') || next == Some(']') {
            } else {
                out.push(c);
            }
        } else {
            escaped = false;
            out.push(c);
        }
        proof {
            let e = comma_step(comma_state(v@, i as int), c, v@.skip(i + 1)).1;
            assert(out@ =~= comma_output(v@, i as int) + e);
        }
        i = i + 1;
    }
    string_of(out.as_slice())
}

/// Whether `c` is anything but a comma.
pub open spec fn is_not_comma(c: char) -> bool {
    c != ','
}

/// [`remove_trailing_commas`] only deletes commas: with the commas taken out,
/// input and output are the same text.
pub proof fn lemma_remove_trailing_commas_only_drops_commas(s: Seq<char>, i: int)
    requires
        0 <= i <= s.len(),
    ensures
        comma_output(s, i).filter(|c: char| is_not_comma(c)) == s.take(i).filter(
            |c: char| is_not_comma(c),
        ),
        comma_output(s, i).len() <= i,
    decreases i,
{
    reveal(Seq::filter);
    if i > 0 {
        lemma_remove_trailing_commas_only_drops_commas(s, i - 1);
        let e = comma_step(comma_state(s, i - 1), s[i - 1], s.skip(i)).1;
        Seq::filter_distributes_over_add(comma_output(s, i - 1), e, |c: char| is_not_comma(c));
        assert(e.filter(|c: char| is_not_comma(c)) =~= seq![s[i - 1]].filter(
            |c: char| is_not_comma(c),
        )) by {
            reveal_with_fuel(Seq::filter, 2);
            assert(seq![s[i - 1]].drop_last() =~= Seq::<char>::empty());
        }
        assert(s.take(i) =~= s.take(i - 1) + seq![s[i - 1]]);
        Seq::filter_distributes_over_add(s.take(i - 1), seq![s[i - 1]], |c: char| is_not_comma(c));
    }
}

/// Text without commas is left unchanged by [`remove_trailing_commas`].
pub proof fn lemma_remove_trailing_commas_keeps_comma_free(s: Seq<char>, i: int)
    requires
        0 <= i <= s.len(),
        !s.contains(','),
    ensures
        comma_output(s, i) == s.take(i),
    decreases i,
{
    if i > 0 {
        lemma_remove_trailing_commas_keeps_comma_free(s, i - 1);
        assert(s[i - 1] != ',');
        assert(s.take(i) =~= s.take(i - 1) + seq![s[i - 1]]);
    }
}

/// The text of `pieces`, followed by `after`, once the trailing commas are
/// removed: a comma outside strings goes when the next non-whitespace
/// character after it closes an object or an array; everything else stays.
pub open spec fn commas_dropped(pieces: Seq<Seq<char>>, after: Seq<char>) -> Seq<char>
    decreases pieces.len(),
{
    if pieces.len() == 0 {
        Seq::empty()
    } else {
        let p = pieces.last();
        commas_dropped(pieces.drop_last(), p + after) + if p == seq![','] && closes_next(after) {
            Seq::empty()
        } else {
            p
        }
    }
}

/// Inside a string, the comma scan copies a string body and stays inside.
#[verifier::spinoff_prover]
#[verifier::rlimit(80)]
proof fn lemma_comma_body(s: Seq<char>, a: int, body: Seq<char>)
    requires
        0 <= a,
        a + body.len() <= s.len(),
        s.subrange(a, a + body.len()) == body,
        comma_state(s, a) == (true, false),
        json_string_body(body),
    ensures
        comma_state(s, a + body.len()) == (true, false),
        comma_output(s, a + body.len()) == comma_output(s, a) + body,
    decreases body.len(),
{
    if body.len() == 0 {
        assert(comma_output(s, a) + body =~= comma_output(s, a));
    } else {
        assert(s[a] == body[0]);
        let k: int = if body[0] == '\\' { 2 } else { 1 };
        if k == 2 {
            assert(s[a + 1] == body[1]);
            assert(comma_state(s, a + 1) == (true, true));
            assert(comma_output(s, a + 1) == comma_output(s, a) + seq![body[0]]);
            assert(comma_state(s, a + 2) == (true, false));
            assert(comma_output(s, a + 2) == comma_output(s, a + 1) + seq![body[1]]);
        } else {
            assert(comma_state(s, a + 1) == (true, false));
            assert(comma_output(s, a + 1) == comma_output(s, a) + seq![body[0]]);
        }
        let rest = body.skip(k);
        assert(s.subrange(a + k, a + k + rest.len()) =~= rest);
        lemma_comma_body(s, a + k, rest);
        assert(body =~= body.take(k) + rest);
        if k == 2 {
            assert(body.take(2) =~= seq![body[0]] + seq![body[1]]);
            assert(comma_output(s, a) + seq![body[0]] + seq![body[1]] + rest =~= comma_output(s, a)
                + body);
        } else {
            assert(body.take(1) =~= seq![body[0]]);
            assert(comma_output(s, a) + seq![body[0]] + rest =~= comma_output(s, a) + body);
        }
    }
}

/// Outside strings, the comma scan copies a string literal and ends outside.
#[verifier::spinoff_prover]
#[verifier::rlimit(80)]
proof fn lemma_comma_literal(s: Seq<char>, m: int, p: Seq<char>)
    requires
        0 <= m,
        m + p.len() <= s.len(),
        s.subrange(m, m + p.len()) == p,
        comma_state(s, m) == (false, false),
        is_string_literal(p),
    ensures
        comma_state(s, m + p.len()) == (false, false),
        comma_output(s, m + p.len()) == comma_output(s, m) + p,
{
    let body = p.subrange(1, p.len() - 1);
    assert(s[m] == p[0]);
    assert(comma_state(s, m + 1) == (true, false));
    assert(comma_output(s, m + 1) == comma_output(s, m) + seq!['"']);
    assert(s.subrange(m + 1, m + 1 + body.len()) =~= body);
    lemma_comma_body(s, m + 1, body);
    let e = m + 1 + body.len();
    assert(s[e] == p[p.len() - 1]);
    assert(comma_state(s, e + 1) == (false, false));
    assert(comma_output(s, e + 1) == comma_output(s, e) + seq!['"']);
    assert(p =~= seq!['"'] + body + seq!['"']);
    assert(comma_output(s, m) + seq!['"'] + body + seq!['"'] =~= comma_output(s, m) + p);
}

/// Outside strings, the comma scan copies a character other than a quote,
/// but for a comma whose next non-whitespace character closes a structure.
#[verifier::spinoff_prover]
#[verifier::rlimit(80)]
proof fn lemma_comma_outside_char(s: Seq<char>, m: int)
    requires
        0 <= m < s.len(),
        s[m] != '"',
        comma_state(s, m) == (false, false),
    ensures
        comma_state(s, m + 1) == (false, false),
        comma_output(s, m + 1) == comma_output(s, m) + if s[m] == ',' && closes_next(
            s.skip(m + 1),
        ) {
            Seq::<char>::empty()
        } else {
            seq![s[m]]
        },
{
}

/// [`remove_trailing_commas`] on JSON text: for text made of string literals
/// and characters outside strings, whatever follows it, the scan ends outside
/// any string, and exactly the commas outside strings whose next
/// non-whitespace character closes an object or an array are removed; commas
/// inside strings, and everything else, stay.
#[verifier::spinoff_prover]
#[verifier::rlimit(80)]
pub proof fn lemma_remove_trailing_commas_on_json(pieces: Seq<Seq<char>>, after: Seq<char>)
    requires
        forall|i: int| 0 <= i < pieces.len() ==> json_piece(#[trigger] pieces[i]),
    ensures
        ({
            let s = pieces_text(pieces) + after;
            let n = pieces_text(pieces).len() as int;
            &&& comma_state(s, n) == (false, false)
            &&& comma_output(s, n) == commas_dropped(pieces, after)
        }),
    decreases pieces.len(),
{
    let s = pieces_text(pieces) + after;
    if pieces.len() > 0 {
        let init = pieces.drop_last();
        let p = pieces.last();
        assert(json_piece(pieces[pieces.len() - 1]));
        assert forall|i: int| 0 <= i < init.len() implies json_piece(#[trigger] init[i]) by {
            assert(json_piece(pieces[i]));
        }
        lemma_remove_trailing_commas_on_json(init, p + after);
        let t = pieces_text(init);
        let m = t.len() as int;
        assert(t + (p + after) =~= s);
        assert(s.subrange(m, m + p.len()) =~= p);
        assert(s.skip(m + p.len()) =~= after);
        if is_string_literal(p) {
            lemma_comma_literal(s, m, p);
            assert(p[0] == '"');
            assert(p != seq![',']);
        } else {
            assert(p =~= seq![p[0]]);
            assert(s[m] == p[0]);
            lemma_comma_outside_char(s, m);
            if p[0] == ',' {
                assert(p == seq![',']);
                assert(comma_output(s, m) + Seq::<char>::empty() =~= comma_output(s, m));
            } else {
                assert(p != seq![',']);
            }
        }
    }
}

// ---------------------------------------------------------------------------
// balance_parenthesis
// ---------------------------------------------------------------------------

/// State of the bracket scan: the expected closers (innermost last), whether the
/// scan is inside a string, whether the last character escapes, and whether an
/// unexpected closer was met.
pub struct BracketScan {
    pub stack: Seq<char>,
    pub inside: bool,
    pub escaped: bool,
    pub failed: bool,
}

/// The state before any character is read.
pub open spec fn bracket_init() -> BracketScan {
    BracketScan { stack: Seq::empty(), inside: false, escaped: false, failed: false }
}

/// One step of the bracket scan.
pub open spec fn bracket_step(st: BracketScan, c: char) -> BracketScan {
    if st.failed {
        st
    } else if c == '"' && !st.escaped {
        BracketScan { inside: !st.inside, ..st }
    } else if c == '{' && !st.inside {
        BracketScan { stack: st.stack.push('}'), ..st }
    } else if c == '[' && !st.inside {
        BracketScan { stack: st.stack.push(']'), ..st }
    } else if (c == '}' || c == ']') && !st.inside {
        if st.stack.len() > 0 && st.stack.last() == c {
            BracketScan { stack: st.stack.drop_last(), ..st }
        } else {
            BracketScan { failed: true, ..st }
        }
    } else if c == '\\' && st.inside {
        BracketScan { escaped: !st.escaped, ..st }
    } else {
        BracketScan { escaped: false, ..st }
    }
}

/// The bracket scan started in `st` after reading `t`.
pub open spec fn bracket_run(st: BracketScan, t: Seq<char>) -> BracketScan
    decreases t.len(),
{
    if t.len() == 0 {
        st
    } else {
        bracket_step(bracket_run(st, t.drop_last()), t.last())
    }
}

/// State of the bracket scan after reading `s`.
pub open spec fn bracket_state(s: Seq<char>) -> BracketScan {
    bracket_run(bracket_init(), s)
}

/// What [`balance_parenthesis`] returns for `s`: `s` itself when a closer does
/// not match, else `s` followed by the closers of the structures left open,
/// innermost first.
pub open spec fn balanced(s: Seq<char>) -> Seq<char> {
    let st = bracket_state(s);
    if st.failed {
        s
    } else {
        s + st.stack.reverse()
    }
}

/// Closes unclosed JSON objects and arrays. Text with a closer that does not
/// match the innermost open structure is returned unchanged.
pub fn balance_parenthesis(s: &str) -> (r: String)
    ensures
        r@ == balanced(s@),
{
    let v = chars_of(s);
    let n = v.len();
    let mut new_s: Vec<char> = Vec::new();
    let mut stack: Vec<char> = Vec::new();
    let mut is_inside_string = false;
    let mut escaped = false;
    let mut i: usize = 0;
    while i < n
        invariant
            i <= n == v@.len(),
            v@ == s@,
            new_s@ == v@.take(i as int),
            bracket_state(v@.take(i as int)) == (BracketScan {
                stack: stack@,
                inside: is_inside_string,
                escaped,
                failed: false,
            }),
        decreases n - i,
    {
        let c = v[i];
        assert(v@.take(i + 1).drop_last() =~= v@.take(i as int));
        if c == '"' && !escaped {
            is_inside_string = !is_inside_string;
        } else if c == '{' && !is_inside_string {
            stack.push('}');
        } else if c == '[' && !is_inside_string {
            stack.push(']');
        } else if (c == '}' || c == ']') && !is_inside_string {
            match stack.pop() {
                Some(top) => {
                    if top != c {
                        proof {
                            lemma_bracket_failure_persists(v@, i as int + 1);
                        }
                        return s.to_owned();
                    }
                },
                None => {
                    proof {
                        lemma_bracket_failure_persists(v@, i as int + 1);
                    }
                    return s.to_owned();
                },
            }
        } else if c == '\\' && is_inside_string {
            escaped = !escaped;
        } else {
            escaped = false;
        }
        new_s.push(c);
        assert(new_s@ =~= v@.take(i + 1));
        i = i + 1;
    }
    assert(v@.take(n as int) =~= v@);
    let ghost open_stack = stack@;
    let mut k: usize = stack.len();
    while k > 0
        invariant
            k == stack@.len(),
            k <= open_stack.len(),
            stack@ == open_stack.take(k as int),
            new_s@ == v@ + open_stack.reverse().take(open_stack.len() - k),
        decreases k,
    {
        let c = stack.pop().unwrap();
        new_s.push(c);
        assert(new_s@ =~= v@ + open_stack.reverse().take(open_stack.len() - (k - 1)));
        k = k - 1;
    }
    assert(open_stack.reverse().take(open_stack.len() as int) =~= open_stack.reverse());
    string_of(new_s.as_slice())
}

/// Once the bracket scan fails it stays failed, whatever follows.
proof fn lemma_bracket_failure_persists(s: Seq<char>, i: int)
    requires
        0 < i <= s.len(),
        bracket_state(s.take(i)).failed,
    ensures
        bracket_state(s).failed,
    decreases s.len() - i,
{
    if i < s.len() {
        assert(s.take(i + 1).drop_last() =~= s.take(i));
        lemma_bracket_failure_persists(s, i + 1);
    } else {
        assert(s.take(i) =~= s);
    }
}

/// Reading `s` then `t` is reading `s + t`.
pub proof fn lemma_bracket_run_concat(st: BracketScan, s: Seq<char>, t: Seq<char>)
    ensures
        bracket_run(st, s + t) == bracket_run(bracket_run(st, s), t),
    decreases t.len(),
{
    if t.len() == 0 {
        assert(s + t =~= s);
    } else {
        assert((s + t).drop_last() =~= s + t.drop_last());
        lemma_bracket_run_concat(st, s, t.drop_last());
    }
}

/// Outside string literals the scan never holds a pending escape.
pub proof fn lemma_bracket_escape_only_inside(s: Seq<char>)
    ensures
        !bracket_state(s).inside ==> !bracket_state(s).escaped,
    decreases s.len(),
{
    if s.len() > 0 {
        lemma_bracket_escape_only_inside(s.drop_last());
    }
}

/// Whether every character of `stack` closes an object or an array.
pub open spec fn closers_only(stack: Seq<char>) -> bool {
    forall|i: int| 0 <= i < stack.len() ==> stack[i] == '}' || stack[i] == ']'
}

/// The scan only ever expects `}` and `]`.
pub proof fn lemma_bracket_stack_closers(s: Seq<char>)
    ensures
        closers_only(bracket_state(s).stack),
    decreases s.len(),
{
    if s.len() > 0 {
        lemma_bracket_stack_closers(s.drop_last());
    }
}

/// Reading the closers of the open structures, outside any string, closes them
/// one by one.
proof fn lemma_bracket_closers(st: BracketScan, k: int)
    requires
        !st.failed,
        !st.inside,
        !st.escaped,
        0 <= k <= st.stack.len(),
        closers_only(st.stack),
    ensures
        bracket_run(st, st.stack.reverse().take(k)) == (BracketScan {
            stack: st.stack.take(st.stack.len() - k),
            ..st
        }),
    decreases k,
{
    if k == 0 {
        assert(st.stack.take(st.stack.len() as int) =~= st.stack);
        assert(st.stack.reverse().take(0) =~= Seq::<char>::empty());
    } else {
        let t = st.stack.reverse().take(k);
        assert(t.last() == st.stack[st.stack.len() - k]);
        assert(t.drop_last() =~= st.stack.reverse().take(k - 1));
        lemma_bracket_closers(st, k - 1);
        let pre = st.stack.take(st.stack.len() - (k - 1));
        assert(pre.last() == t.last());
        assert(pre.drop_last() =~= st.stack.take(st.stack.len() - k));
    }
}

/// Balancing text that did not end inside a string literal yields balanced
/// text: balancing it again changes nothing.
pub proof fn lemma_balance_parenthesis_idempotent(s: Seq<char>)
    requires
        !bracket_state(s).inside,
    ensures
        balanced(balanced(s)) == balanced(s),
        !bracket_state(s).failed ==> bracket_state(balanced(s)).stack.len() == 0,
{
    let st = bracket_state(s);
    if !st.failed {
        lemma_bracket_escape_only_inside(s);
        lemma_bracket_stack_closers(s);
        lemma_bracket_run_concat(bracket_init(), s, st.stack.reverse());
        lemma_bracket_closers(st, st.stack.len() as int);
        assert(st.stack.reverse().take(st.stack.len() as int) =~= st.stack.reverse());
        assert(st.stack.take(0) =~= Seq::<char>::empty());
        let b = balanced(s);
        assert(b + Seq::<char>::empty().reverse() =~= b);
    }
}

/// [`balance_parenthesis`] only ever appends to its input.
pub proof fn lemma_balance_parenthesis_extends(s: Seq<char>)
    ensures
        balanced(s).len() >= s.len(),
        balanced(s).subrange(0, s.len() as int) == s,
{
    assert(balanced(s).subrange(0, s.len() as int) =~= s);
}

/// A failed scan stays as it is, whatever follows.
proof fn lemma_bracket_run_failed(st: BracketScan, t: Seq<char>)
    requires
        st.failed,
    ensures
        bracket_run(st, t) == st,
    decreases t.len(),
{
    if t.len() > 0 {
        lemma_bracket_run_failed(st, t.drop_last());
    }
}

proof fn lemma_bracket_run_one(st: BracketScan, c: char)
    ensures
        bracket_run(st, seq![c]) == bracket_step(st, c),
{
    let one = seq![c];
    assert(one.drop_last() =~= Seq::<char>::empty());
    assert(bracket_run(st, one.drop_last()) == st);
    assert(one.last() == c);
}

/// Inside a string, a string body is read back to the same state.
proof fn lemma_bracket_body(st: BracketScan, t: Seq<char>)
    requires
        st.inside,
        !st.escaped,
        !st.failed,
        json_string_body(t),
    ensures
        bracket_run(st, t) == st,
    decreases t.len(),
{
    if t.len() > 0 {
        let k: int = if t[0] == '\\' { 2 } else { 1 };
        lemma_split_front(t, k);
        lemma_bracket_run_concat(st, t.take(k), t.skip(k));
        if k == 2 {
            assert(t.take(2) =~= seq![t[0]] + seq![t[1]]);
            lemma_bracket_run_concat(st, seq![t[0]], seq![t[1]]);
            lemma_bracket_run_one(st, t[0]);
            lemma_bracket_run_one(bracket_step(st, t[0]), t[1]);
        } else {
            assert(t.take(1) =~= seq![t[0]]);
            lemma_bracket_run_one(st, t[0]);
        }
        lemma_bracket_body(st, t.skip(k));
    }
}

/// Outside strings, a string literal is read back to the same state: nothing
/// inside it opens or closes a structure.
proof fn lemma_bracket_literal(st: BracketScan, p: Seq<char>)
    requires
        !st.inside,
        !st.escaped,
        is_string_literal(p),
    ensures
        bracket_run(st, p) == st,
{
    if st.failed {
        lemma_bracket_run_failed(st, p);
    } else {
        let body = p.subrange(1, p.len() - 1);
        assert(p =~= seq![p[0]] + body + seq![p.last()]);
        lemma_bracket_run_concat(st, seq![p[0]] + body, seq![p.last()]);
        lemma_bracket_run_concat(st, seq![p[0]], body);
        lemma_bracket_run_one(st, p[0]);
        let inner = bracket_step(st, p[0]);
        lemma_bracket_body(inner, body);
        lemma_bracket_run_one(inner, p.last());
    }
}

/// [`balance_parenthesis`] sees the structures of JSON text exactly: for text
/// made of string literals and characters outside strings, the scan ends
/// outside any string with no pending escape, in the state it reaches on the
/// characters outside strings alone, so that balancing closes exactly the
/// objects and arrays opened outside strings (and leaves text whose
/// structures are all closed as it is). An escape covers only the one
/// character after its backslash.
pub proof fn lemma_balance_parenthesis_sees_json(pieces: Seq<Seq<char>>)
    requires
        forall|i: int| 0 <= i < pieces.len() ==> json_piece(#[trigger] pieces[i]),
    ensures
        bracket_state(pieces_text(pieces)) == bracket_state(outside_text(pieces)),
        !bracket_state(pieces_text(pieces)).inside,
        !bracket_state(pieces_text(pieces)).escaped,
        !bracket_state(outside_text(pieces)).failed ==> balanced(pieces_text(pieces))
            == pieces_text(pieces) + bracket_state(outside_text(pieces)).stack.reverse(),
        bracket_state(outside_text(pieces)).failed ==> balanced(pieces_text(pieces))
            == pieces_text(pieces),
    decreases pieces.len(),
{
    if pieces.len() == 0 {
    } else {
        let init = pieces.drop_last();
        let p = pieces.last();
        assert(json_piece(pieces[pieces.len() - 1]));
        assert forall|i: int| 0 <= i < init.len() implies json_piece(#[trigger] init[i]) by {
            assert(json_piece(pieces[i]));
        }
        lemma_balance_parenthesis_sees_json(init);
        let t = pieces_text(init);
        let o = outside_text(init);
        let st = bracket_state(t);
        lemma_bracket_run_concat(bracket_init(), t, p);
        if is_string_literal(p) {
            lemma_bracket_literal(st, p);
            assert(o + Seq::<char>::empty() =~= o);
        } else {
            assert(p =~= seq![p[0]]);
            lemma_bracket_run_concat(bracket_init(), o, p);
            lemma_bracket_run_one(st, p[0]);
        }
    }
}

} // verus!
