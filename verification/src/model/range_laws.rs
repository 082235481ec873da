//! What holds of the version-range grammar for every input: which texts
//! denote which ranges, and that printing and parsing agree.

use super::version_range::{
    bound_of, exact_match_spec, full_specifier_spec, is_blank, is_space_char, is_token,
    is_token_char, min_version_bare_spec, parse_range, print_high, print_low, print_range,
    token_end, whitespace_end, Bound, Range,
};
use super::version_range::{lemma_token_end, lemma_whitespace_end};
use vstd::prelude::*;

verus! {

/// Every character of `s` from `from` up to `to` is whitespace.
pub open spec fn blank_between(s: Seq<char>, from: int, to: int) -> bool {
    &&& 0 <= from <= to <= s.len()
    &&& forall|k: int| from <= k < to ==> is_space_char(#[trigger] s[k])
}

/// Every character of `s` from `from` up to `to` is a token character.
pub open spec fn token_between(s: Seq<char>, from: int, to: int) -> bool {
    &&& 0 <= from <= to <= s.len()
    &&& forall|k: int| from <= k < to ==> is_token_char(#[trigger] s[k])
}

/// The layout of the full form: whitespace up to the opening bracket at
/// `open`; whitespace, the low token from `low_start` to `low_end`,
/// whitespace; the comma at `comma`; whitespace, the high token from
/// `high_start` to `high_end`, whitespace; the closing bracket at `close`;
/// whitespace to the end. Either token may be empty.
pub open spec fn full_layout(
    s: Seq<char>,
    open: int,
    low_start: int,
    low_end: int,
    comma: int,
    high_start: int,
    high_end: int,
    close: int,
) -> bool {
    &&& blank_between(s, 0, open)
    &&& open < s.len()
    &&& (s[open] == '[' || s[open] == '(')
    &&& blank_between(s, open + 1, low_start)
    &&& token_between(s, low_start, low_end)
    &&& blank_between(s, low_end, comma)
    &&& comma < s.len()
    &&& s[comma] == ','
    &&& blank_between(s, comma + 1, high_start)
    &&& token_between(s, high_start, high_end)
    &&& blank_between(s, high_end, close)
    &&& close < s.len()
    &&& (s[close] == ']' || s[close] == ')')
    &&& blank_between(s, close + 1, s.len() as int)
}

/// The layout of the exact form: whitespace up to `[` at `open`; whitespace,
/// the token from `start` to `stop`, which is not empty, whitespace; `]` at
/// `close`; whitespace to the end.
pub open spec fn exact_layout(s: Seq<char>, open: int, start: int, stop: int, close: int) -> bool {
    &&& blank_between(s, 0, open)
    &&& open < s.len()
    &&& s[open] == '['
    &&& blank_between(s, open + 1, start)
    &&& token_between(s, start, stop)
    &&& start < stop
    &&& blank_between(s, stop, close)
    &&& close < s.len()
    &&& s[close] == ']'
    &&& blank_between(s, close + 1, s.len() as int)
}

/// The layout of the bare form: whitespace up to the token, which runs from
/// `start` to `stop` and is not empty; whitespace to the end.
pub open spec fn bare_layout(s: Seq<char>, start: int, stop: int) -> bool {
    &&& blank_between(s, 0, start)
    &&& token_between(s, start, stop)
    &&& start < stop
    &&& blank_between(s, stop, s.len() as int)
}

/// A scan for whitespace that starts inside a run of whitespace stops where
/// the run does, if what follows the run is no whitespace.
pub proof fn lemma_blank_run(s: Seq<char>, from: int, to: int)
    requires
        blank_between(s, from, to),
        to < s.len() ==> !is_space_char(s[to]),
    ensures
        whitespace_end(s, from) == to,
    decreases to - from,
{
    if from < to {
        lemma_blank_run(s, from + 1, to);
    }
}

/// A scan for a token that starts inside a run of token characters stops where
/// the run does, if what follows the run is no token character.
pub proof fn lemma_token_run(s: Seq<char>, from: int, to: int)
    requires
        token_between(s, from, to),
        to < s.len() ==> !is_token_char(s[to]),
    ensures
        token_end(s, from) == to,
    decreases to - from,
{
    if from < to {
        lemma_token_run(s, from + 1, to);
    }
}

/// A text laid out as whitespace, bracket, whitespace, token, whitespace,
/// comma, whitespace, token, whitespace, bracket, whitespace (each run of
/// whitespace and each token possibly empty) denotes the range of its
/// brackets and tokens.
pub proof fn lemma_full_layout(
    s: Seq<char>,
    open: int,
    low_start: int,
    low_end: int,
    comma: int,
    high_start: int,
    high_end: int,
    close: int,
)
    requires
        full_layout(s, open, low_start, low_end, comma, high_start, high_end, close),
    ensures
        parse_range(s) == Some(
            Range {
                low: bound_of(s[open] == '[', s.subrange(low_start, low_end)),
                high: bound_of(s[close] == ']', s.subrange(high_start, high_end)),
            },
        ),
{
    lemma_blank_run(s, 0, open);
    if low_start < low_end {
        lemma_blank_run(s, open + 1, low_start);
        lemma_token_run(s, low_start, low_end);
        lemma_blank_run(s, low_end, comma);
    } else {
        lemma_blank_run(s, open + 1, comma);
    }
    if high_start < high_end {
        lemma_blank_run(s, comma + 1, high_start);
        lemma_token_run(s, high_start, high_end);
        lemma_blank_run(s, high_end, close);
    } else {
        lemma_blank_run(s, comma + 1, close);
    }
    lemma_blank_run(s, close + 1, s.len() as int);
}

/// A text laid out as whitespace, `[`, whitespace, token, whitespace, `]`,
/// whitespace denotes exactly the version of its token.
pub proof fn lemma_exact_layout(s: Seq<char>, open: int, start: int, stop: int, close: int)
    requires
        exact_layout(s, open, start, stop, close),
    ensures
        parse_range(s) == Some(
            Range {
                low: Bound::Inclusive(s.subrange(start, stop)),
                high: Bound::Inclusive(s.subrange(start, stop)),
            },
        ),
{
    lemma_blank_run(s, 0, open);
    lemma_blank_run(s, open + 1, start);
    lemma_token_run(s, start, stop);
    lemma_blank_run(s, stop, close);
    lemma_blank_run(s, close + 1, s.len() as int);
}

/// A text laid out as whitespace, token, whitespace denotes the version of
/// its token or any later one.
pub proof fn lemma_bare_layout(s: Seq<char>, start: int, stop: int)
    requires
        bare_layout(s, start, stop),
    ensures
        parse_range(s) == Some(
            Range { low: Bound::Inclusive(s.subrange(start, stop)), high: Bound::Open },
        ),
{
    lemma_blank_run(s, 0, start);
    lemma_token_run(s, start, stop);
    lemma_blank_run(s, stop, s.len() as int);
}

/// A text that denotes a range is laid out in the form that was found for
/// it, at the positions where the scans for whitespace and tokens stop.
pub proof fn lemma_found_form_has_layout(s: Seq<char>)
    requires
        parse_range(s) is Some,
    ensures
        ({
            let open = whitespace_end(s, 0);
            let low_start = whitespace_end(s, open + 1);
            let low_end = token_end(s, low_start);
            let comma = whitespace_end(s, low_end);
            let high_start = whitespace_end(s, comma + 1);
            let high_end = token_end(s, high_start);
            let close = whitespace_end(s, high_end);
            let stop = token_end(s, open);
            if full_specifier_spec(s) is Some {
                full_layout(s, open, low_start, low_end, comma, high_start, high_end, close)
            } else if exact_match_spec(s) is Some {
                exact_layout(s, open, low_start, low_end, comma)
            } else {
                bare_layout(s, open, stop)
            }
        }),
{
    lemma_whitespace_end(s, 0);
    let open = whitespace_end(s, 0);
    if full_specifier_spec(s) is Some {
        lemma_whitespace_end(s, open + 1);
        let low_start = whitespace_end(s, open + 1);
        lemma_token_end(s, low_start);
        let low_end = token_end(s, low_start);
        lemma_whitespace_end(s, low_end);
        let comma = whitespace_end(s, low_end);
        lemma_whitespace_end(s, comma + 1);
        let high_start = whitespace_end(s, comma + 1);
        lemma_token_end(s, high_start);
        let high_end = token_end(s, high_start);
        lemma_whitespace_end(s, high_end);
        let close = whitespace_end(s, high_end);
        lemma_whitespace_end(s, close + 1);
    } else if exact_match_spec(s) is Some {
        lemma_whitespace_end(s, open + 1);
        let start = whitespace_end(s, open + 1);
        lemma_token_end(s, start);
        let stop = token_end(s, start);
        lemma_whitespace_end(s, stop);
        let close = whitespace_end(s, stop);
        lemma_whitespace_end(s, close + 1);
    } else {
        lemma_token_end(s, open);
        lemma_whitespace_end(s, token_end(s, open));
    }
}

/// A text that denotes a range holds nothing but brackets, a comma, whitespace
/// and token characters, all of them ASCII.
pub proof fn range_text_is_ascii(s: Seq<char>)
    requires
        parse_range(s) is Some,
    ensures
        vstd::utf8::is_ascii_chars(s),
{
    lemma_found_form_has_layout(s);
}

/// A text laid out as whitespace, `(`, whitespace, token, whitespace, `)`,
/// whitespace denotes no range: one bound between parentheses has no meaning.
pub proof fn lemma_lone_parenthesis_layout(
    s: Seq<char>,
    open: int,
    start: int,
    stop: int,
    close: int,
)
    requires
        blank_between(s, 0, open),
        open < s.len(),
        s[open] == '(',
        blank_between(s, open + 1, start),
        token_between(s, start, stop),
        blank_between(s, stop, close),
        close < s.len(),
        s[close] == ')',
    ensures
        parse_range(s) is None,
{
    lemma_blank_run(s, 0, open);
    if start < stop {
        lemma_blank_run(s, open + 1, start);
        lemma_token_run(s, start, stop);
        lemma_blank_run(s, stop, close);
    } else {
        lemma_blank_run(s, open + 1, close);
    }
}

/// The grammar's full form, written out: whitespace may stand anywhere
/// between the parts and changes nothing; a token that is left out makes
/// its bound open.
pub proof fn full_form_denotes(
    w0: Seq<char>,
    open: char,
    w1: Seq<char>,
    low: Seq<char>,
    w2: Seq<char>,
    w3: Seq<char>,
    high: Seq<char>,
    w4: Seq<char>,
    close: char,
    w5: Seq<char>,
)
    requires
        is_blank(w0),
        is_blank(w1),
        is_blank(w2),
        is_blank(w3),
        is_blank(w4),
        is_blank(w5),
        open == '[' || open == '(',
        close == ']' || close == ')',
        low.len() == 0 || is_token(low),
        high.len() == 0 || is_token(high),
    ensures
        parse_range(
            w0 + seq![open] + w1 + low + w2 + seq![','] + w3 + high + w4 + seq![close] + w5,
        ) == Some(Range { low: bound_of(open == '[', low), high: bound_of(close == ']', high) }),
{
    let s = w0 + seq![open] + w1 + low + w2 + seq![','] + w3 + high + w4 + seq![close] + w5;
    let a = w0.len() as int;
    let b = a + 1 + w1.len();
    let c = b + low.len();
    let d = c + w2.len();
    let e = d + 1 + w3.len();
    let f = e + high.len() as int;
    let g = f + w4.len();
    assert(s.subrange(b, c) =~= low);
    assert(s.subrange(e, f) =~= high);
    lemma_full_layout(s, a, b, c, d, e, f, g);
}

/// The grammar's exact form, written out: `[version]`, with whitespace
/// anywhere between the parts, denotes that one version.
pub proof fn exact_form_denotes(
    w0: Seq<char>,
    w1: Seq<char>,
    version: Seq<char>,
    w2: Seq<char>,
    w3: Seq<char>,
)
    requires
        is_blank(w0),
        is_blank(w1),
        is_blank(w2),
        is_blank(w3),
        is_token(version),
    ensures
        parse_range(w0 + seq!['['] + w1 + version + w2 + seq![']'] + w3) == Some(
            Range { low: Bound::Inclusive(version), high: Bound::Inclusive(version) },
        ),
{
    let s = w0 + seq!['['] + w1 + version + w2 + seq![']'] + w3;
    let a = w0.len() as int;
    let b = a + 1 + w1.len();
    let c = b + version.len();
    let d = c + w2.len();
    assert(s.subrange(b, c) =~= version);
    lemma_exact_layout(s, a, b, c, d);
}

/// The grammar's bare form, written out: a version alone denotes that
/// version or any later one, and whitespace before and after it changes
/// nothing.
pub proof fn bare_form_denotes(w0: Seq<char>, version: Seq<char>, w1: Seq<char>)
    requires
        is_blank(w0),
        is_blank(w1),
        is_token(version),
    ensures
        parse_range(w0 + version + w1) == Some(
            Range { low: Bound::Inclusive(version), high: Bound::Open },
        ),
{
    let s = w0 + version + w1;
    let a = w0.len() as int;
    let b = a + version.len();
    assert(s.subrange(a, b) =~= version);
    lemma_bare_layout(s, a, b);
}

/// One version between parentheses, `(version)`, denotes nothing, whatever
/// whitespace stands between the parts.
pub proof fn lone_parenthesis_denotes_nothing(
    w0: Seq<char>,
    w1: Seq<char>,
    version: Seq<char>,
    w2: Seq<char>,
    w3: Seq<char>,
)
    requires
        is_blank(w0),
        is_blank(w1),
        is_blank(w2),
        is_token(version),
    ensures
        parse_range(w0 + seq!['('] + w1 + version + w2 + seq![')'] + w3) is None,
{
    let s = w0 + seq!['('] + w1 + version + w2 + seq![')'] + w3;
    let a = w0.len() as int;
    let b = a + 1 + w1.len();
    let c = b + version.len();
    let d = c + w2.len();
    lemma_lone_parenthesis_layout(s, a, b, c, d);
}

/// A bare version and the full form `[version, )` denote the same range.
pub proof fn shorthand_agrees_with_full_form(version: Seq<char>)
    requires
        is_token(version),
    ensures
        parse_range(version) == parse_range(seq!['['] + version + seq![',', ' ', ')']),
{
    let e = Seq::<char>::empty();
    bare_form_denotes(e, version, e);
    assert(e + version + e =~= version);
    full_form_denotes(e, '[', e, version, e, seq![' '], e, e, ')', e);
    assert(e + seq!['['] + e + version + e + seq![','] + seq![' '] + e + e + seq![')'] + e
        =~= seq!['['] + version + seq![',', ' ', ')']);
}

/// The text that a bound carries; none for an open bound.
pub open spec fn bound_text(b: Bound) -> Seq<char> {
    match b {
        Bound::Open => Seq::empty(),
        Bound::Inclusive(t) => t,
        Bound::Exclusive(t) => t,
    }
}

/// The canonical layout, bracket, token, ` , `, token, bracket, denotes the
/// range of its brackets and tokens.
proof fn lemma_canonical_layout(open: char, low: Seq<char>, high: Seq<char>, close: char)
    requires
        open == '[' || open == '(',
        close == ']' || close == ')',
        low.len() == 0 || is_token(low),
        high.len() == 0 || is_token(high),
    ensures
        parse_range((seq![open] + low) + seq![' ', ',', ' '] + (high + seq![close])) == Some(
            Range { low: bound_of(open == '[', low), high: bound_of(close == ']', high) },
        ),
{
    let s = (seq![open] + low) + seq![' ', ',', ' '] + (high + seq![close]);
    let c = low.len() as int + 1;
    let e = c + 3;
    let f = e + high.len() as int;
    assert(s.subrange(1, c) =~= low);
    assert(s.subrange(e, f) =~= high);
    lemma_full_layout(s, 0, 1, c, c + 1, e, f, f);
}

/// Printing a well-formed range and reading the text back gives the range
/// again.
pub proof fn print_then_parse(r: Range)
    requires
        r.wf(),
    ensures
        parse_range(print_range(r)) == Some(r),
{
    let open = if r.low is Exclusive { '(' } else { '[' };
    let close = if r.high is Exclusive { ')' } else { ']' };
    let low = bound_text(r.low);
    let high = bound_text(r.high);
    lemma_canonical_layout(open, low, high, close);
}

/// The printed form always starts and ends with a bracket: the bare form is
/// never printed.
pub proof fn printed_range_is_bracketed(r: Range)
    ensures
        print_range(r).len() >= 5,
        print_range(r).first() == '[' || print_range(r).first() == '(',
        print_range(r).last() == ']' || print_range(r).last() == ')',
        min_version_bare_spec(print_range(r)) is None,
{
}

/// Whatever range a text denotes is well formed: its bounds carry tokens.
pub proof fn parsed_range_is_well_formed(s: Seq<char>)
    requires
        parse_range(s) is Some,
    ensures
        parse_range(s)->0.wf(),
{
    lemma_found_form_has_layout(s);
}

/// The texts that denote a range are exactly those laid out in one of the
/// grammar's three forms; every other text denotes nothing.
pub proof fn texts_that_denote_ranges(s: Seq<char>)
    ensures
        parse_range(s) is Some <==> {
            ||| exists|
                open: int,
                low_start: int,
                low_end: int,
                comma: int,
                high_start: int,
                high_end: int,
                close: int,
            |
                full_layout(s, open, low_start, low_end, comma, high_start, high_end, close)
            ||| exists|open: int, start: int, stop: int, close: int|
                exact_layout(s, open, start, stop, close)
            ||| exists|start: int, stop: int| bare_layout(s, start, stop)
        },
{
    if parse_range(s) is Some {
        lemma_found_form_has_layout(s);
    }
    if exists|
        open: int,
        low_start: int,
        low_end: int,
        comma: int,
        high_start: int,
        high_end: int,
        close: int,
    |
        full_layout(s, open, low_start, low_end, comma, high_start, high_end, close) {
        let (open, low_start, low_end, comma, high_start, high_end, close) = choose|
            open: int,
            low_start: int,
            low_end: int,
            comma: int,
            high_start: int,
            high_end: int,
            close: int,
        |
            full_layout(s, open, low_start, low_end, comma, high_start, high_end, close);
        lemma_full_layout(s, open, low_start, low_end, comma, high_start, high_end, close);
    }
    if exists|open: int, start: int, stop: int, close: int|
        exact_layout(s, open, start, stop, close) {
        let (open, start, stop, close) = choose|open: int, start: int, stop: int, close: int|
            exact_layout(s, open, start, stop, close);
        lemma_exact_layout(s, open, start, stop, close);
    }
    if exists|start: int, stop: int| bare_layout(s, start, stop) {
        let (start, stop) = choose|start: int, stop: int| bare_layout(s, start, stop);
        lemma_bare_layout(s, start, stop);
    }
}

/// The range that a text denotes survives printing and reading back, though
/// the text itself may not: printing normalises whitespace and the bare
/// form.
pub proof fn parse_print_parse(s: Seq<char>)
    requires
        parse_range(s) is Some,
    ensures
        parse_range(print_range(parse_range(s)->0)) == parse_range(s),
{
    parsed_range_is_well_formed(s);
    print_then_parse(parse_range(s)->0);
}

} // verus!
