//! The SQL normalizer: from a statement to its pattern, with literals replaced by `?` and
//! white space collapsed. Statements with the same pattern are the same query run with
//! different values.

use crate::text::{
    char_is_ascii_digit, char_is_whitespace, chars_of, is_ascii_digit, is_whitespace, string_of,
};
use vstd::prelude::*;

verus! {

/// Whether `c` opens a string literal.
pub open spec fn is_quote(c: char) -> bool {
    c == '\'' || c == '"'
}

/// Whether a character may stand directly before a numeric literal.
pub open spec fn is_boundary(c: char) -> bool {
    is_whitespace(c) || c == '=' || c == '(' || c == ','
}

/// Whether a digit that follows the output `out` begins a numeric literal: it does at the
/// start and after white space, `=`, `(` or `,`.
pub open spec fn literal_may_start(out: Seq<char>) -> bool {
    out.len() == 0 || is_boundary(out.last())
}

/// Where the scan of a statement stands.
#[derive(Debug, Clone, Copy, PartialEq, Eq, Structural)]
pub enum ScanState {
    /// Outside any literal.
    Text,
    /// Inside a string literal that the given quote character opened.
    Quoted(char),
    /// Behind the first digit of a numeric literal.
    Number,
}

/// What the scan does with the character `c` outside any literal, where `out` was written so
/// far: a quote opens a string literal, a digit where a literal may start opens a numeric
/// literal and writes its `?`, and any other character is written as it is.
pub open spec fn text_step(c: char, out: Seq<char>) -> (ScanState, Seq<char>) {
    if is_quote(c) {
        (ScanState::Quoted(c), out)
    } else if is_ascii_digit(c) && literal_may_start(out) {
        (ScanState::Number, out.push('?'))
    } else {
        (ScanState::Text, out.push(c))
    }
}

/// The output of the scan of `s` from index `i` on, where `out` was written so far.
///
/// Inside a string literal nothing is written. Its quote character closes it, and writes one
/// `?`, unless the same character follows at once: the two are an escaped quote. A numeric
/// literal goes on over digits and dots, and the character that ends it is read as text.
pub open spec fn scan(s: Seq<char>, i: int, state: ScanState, out: Seq<char>) -> Seq<char>
    decreases s.len() - i,
{
    if i < 0 || i >= s.len() {
        out
    } else {
        let c = s[i];
        match state {
            ScanState::Quoted(q) => {
                if c != q {
                    scan(s, i + 1, state, out)
                } else if i + 1 < s.len() && s[i + 1] == q {
                    scan(s, i + 2, state, out)
                } else {
                    scan(s, i + 1, ScanState::Text, out.push('?'))
                }
            },
            ScanState::Number => {
                if is_ascii_digit(c) || c == '.' {
                    scan(s, i + 1, state, out)
                } else {
                    scan(s, i + 1, text_step(c, out).0, text_step(c, out).1)
                }
            },
            ScanState::Text => scan(s, i + 1, text_step(c, out).0, text_step(c, out).1),
        }
    }
}

/// `s` with its literals replaced by `?`.
pub open spec fn replace_literals(s: Seq<char>) -> Seq<char> {
    scan(s, 0, ScanState::Text, Seq::empty())
}

/// `s` with every run of white space between two words replaced by one space, and without
/// the white space at its ends.
pub open spec fn collapse(s: Seq<char>) -> Seq<char>
    decreases s.len(),
{
    if s.len() == 0 {
        Seq::empty()
    } else {
        let before = collapse(s.drop_last());
        let c = s.last();
        if is_whitespace(c) {
            before
        } else if before.len() > 0 && s.len() >= 2 && is_whitespace(s[s.len() - 2]) {
            before.push(' ').push(c)
        } else {
            before.push(c)
        }
    }
}

/// The pattern of a statement.
pub open spec fn normalize(s: Seq<char>) -> Seq<char> {
    collapse(replace_literals(s))
}

/// What the scan does with `c` outside any literal: writes to `out` and gives the next state.
fn step_text(c: char, out: &mut Vec<char>) -> (state: ScanState)
    ensures
        (state, final(out)@) == text_step(c, old(out)@),
{
    if c == '\'' || c == '"' {
        ScanState::Quoted(c)
    } else if char_is_ascii_digit(c) && (out.len() == 0 || may_precede_number(
        out[out.len() - 1],
    )) {
        out.push('?');
        ScanState::Number
    } else {
        out.push(c);
        ScanState::Text
    }
}

/// Replaces the literals of a statement by `?`.
fn replace_literals_chars(s: &Vec<char>) -> (out: Vec<char>)
    ensures
        out@ == replace_literals(s@),
{
    let mut out: Vec<char> = Vec::new();
    let mut state = ScanState::Text;
    let mut i: usize = 0;
    while i < s.len()
        invariant
            i <= s.len(),
            scan(s@, i as int, state, out@) == replace_literals(s@),
        decreases s.len() - i,
    {
        let c = s[i];
        match state {
            ScanState::Quoted(q) => {
                if c != q {
                    i += 1;
                } else if i + 1 < s.len() && s[i + 1] == q {
                    i += 2;
                } else {
                    out.push('?');
                    state = ScanState::Text;
                    i += 1;
                }
            },
            ScanState::Number => {
                if !(char_is_ascii_digit(c) || c == '.') {
                    state = step_text(c, &mut out);
                }
                i += 1;
            },
            ScanState::Text => {
                state = step_text(c, &mut out);
                i += 1;
            },
        }
    }
    out
}

/// Whether a character may stand directly before a numeric literal.
fn may_precede_number(c: char) -> (b: bool)
    ensures
        b == is_boundary(c),
{
    char_is_whitespace(c) || c == '=' || c == '(' || c == ','
}

/// Collapses the white space of `s`.
fn collapse_chars(s: &Vec<char>) -> (out: Vec<char>)
    ensures
        out@ == collapse(s@),
{
    let mut out: Vec<char> = Vec::new();
    let mut i: usize = 0;
    while i < s.len()
        invariant
            i <= s.len(),
            out@ == collapse(s@.take(i as int)),
        decreases s.len() - i,
    {
        let c = s[i];
        proof {
            assert(s@.take(i + 1).drop_last() =~= s@.take(i as int));
        }
        if !char_is_whitespace(c) {
            if out.len() > 0 && i >= 1 && char_is_whitespace(s[i - 1]) {
                out.push(' ');
            }
            out.push(c);
        }
        i += 1;
    }
    proof {
        assert(s@.take(s.len() as int) =~= s@);
    }
    out
}

/// The pattern of a SQL statement: its literals replaced by `?`, its white space collapsed.
pub fn normalize_sql(sql: &str) -> (pattern: String)
    ensures
        pattern@ == normalize(sql@),
{
    let chars = chars_of(sql);
    let replaced = replace_literals_chars(&chars);
    let collapsed = collapse_chars(&replaced);
    string_of(&collapsed)
}

/// Whether a text holds no quote and no digit where a literal may start: the scan leaves
/// such a text as it is.
pub open spec fn is_settled(s: Seq<char>) -> bool {
    &&& forall|k: int| 0 <= k < s.len() ==> !is_quote(#[trigger] s[k])
    &&& forall|k: int|
        0 <= k < s.len() && is_ascii_digit(#[trigger] s[k]) ==> k > 0 && !is_boundary(s[k - 1])
}

/// Whether white space occurs in a text only as a single space after a character that is not
/// white space.
pub open spec fn is_single_spaced(s: Seq<char>) -> bool {
    forall|k: int|
        0 <= k < s.len() && is_whitespace(#[trigger] s[k]) ==> s[k] == ' ' && k > 0
            && !is_whitespace(s[k - 1])
}

/// The scan keeps its output settled.
proof fn lemma_scan_settles(s: Seq<char>, i: int, state: ScanState, out: Seq<char>)
    requires
        0 <= i,
        is_settled(out),
    ensures
        is_settled(scan(s, i, state, out)),
    decreases s.len() - i,
{
    if i < s.len() {
        let c = s[i];
        match state {
            ScanState::Quoted(q) => {
                if c != q {
                    lemma_scan_settles(s, i + 1, state, out);
                } else if i + 1 < s.len() && s[i + 1] == q {
                    lemma_scan_settles(s, i + 2, state, out);
                } else {
                    lemma_scan_settles(s, i + 1, ScanState::Text, out.push('?'));
                }
            },
            ScanState::Number => {
                if is_ascii_digit(c) || c == '.' {
                    lemma_scan_settles(s, i + 1, state, out);
                } else {
                    lemma_scan_settles(s, i + 1, text_step(c, out).0, text_step(c, out).1);
                }
            },
            ScanState::Text => {
                lemma_scan_settles(s, i + 1, text_step(c, out).0, text_step(c, out).1);
            },
        }
    }
}

/// The scan leaves a settled text as it is.
proof fn lemma_scan_keeps_settled(s: Seq<char>, i: int)
    requires
        is_settled(s),
        0 <= i <= s.len(),
    ensures
        scan(s, i, ScanState::Text, s.take(i)) == s,
    decreases s.len() - i,
{
    if i < s.len() {
        assert(s.take(i).push(s[i]) =~= s.take(i + 1));
        lemma_scan_keeps_settled(s, i + 1);
    }
}

/// A collapsed text is single-spaced and does not end with white space; it ends as
/// the text itself where that does not end with white space.
proof fn lemma_collapse_shape(s: Seq<char>)
    ensures
        is_single_spaced(collapse(s)),
        collapse(s).len() > 0 ==> !is_whitespace(collapse(s).last()),
        s.len() > 0 && !is_whitespace(s.last()) ==> collapse(s).len() > 0 && collapse(s).last()
            == s.last(),
    decreases s.len(),
{
    if s.len() > 0 {
        lemma_collapse_shape(s.drop_last());
    }
}

/// Collapsing keeps a settled text settled.
proof fn lemma_collapse_keeps_settled(s: Seq<char>)
    requires
        is_settled(s),
    ensures
        is_settled(collapse(s)),
    decreases s.len(),
{
    if s.len() > 0 {
        lemma_collapse_keeps_settled(s.drop_last());
    }
}

/// Collapsing a single-spaced text takes at most one space from its end.
proof fn lemma_collapse_of_single_spaced(s: Seq<char>)
    requires
        is_single_spaced(s),
    ensures
        collapse(s) == if s.len() > 0 && is_whitespace(s.last()) {
            s.drop_last()
        } else {
            s
        },
    decreases s.len(),
{
    if s.len() > 0 {
        lemma_collapse_of_single_spaced(s.drop_last());
    }
}

/// Collapsing white space twice gives what collapsing it once gives.
pub proof fn lemma_collapse_idempotent(s: Seq<char>)
    ensures
        collapse(collapse(s)) == collapse(s),
{
    lemma_collapse_shape(s);
    lemma_collapse_of_single_spaced(collapse(s));
}

/// A pattern is its own pattern: normalizing twice gives what normalizing once gives.
pub proof fn lemma_normalize_idempotent(s: Seq<char>)
    ensures
        normalize(normalize(s)) == normalize(s),
{
    let replaced = replace_literals(s);
    let pattern = collapse(replaced);
    lemma_scan_settles(s, 0, ScanState::Text, Seq::empty());
    lemma_collapse_keeps_settled(replaced);
    lemma_scan_keeps_settled(pattern, 0);
    assert(pattern.take(0) =~= Seq::<char>::empty());
    lemma_collapse_idempotent(replaced);
}

} // verus!
