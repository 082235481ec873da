use super::range_laws::{parsed_range_is_well_formed, range_text_is_ascii};
use crate::err::Error;
use vstd::prelude::*;
use vstd::string::*;

verus! {

/// One end of a version range.
#[derive(Clone, Debug, PartialEq, Eq)]
pub enum RangeSpecifier {
    Open,
    Inclusive(String),
    Exclusive(String),
}

/// A pair of bounds on a version.
#[derive(Clone, Debug, PartialEq, Eq)]
pub struct VersionRange {
    pub low: RangeSpecifier,
    pub high: RangeSpecifier,
}

/// The mathematical value of a [`RangeSpecifier`].
pub enum Bound {
    Open,
    Inclusive(Seq<char>),
    Exclusive(Seq<char>),
}

/// The mathematical value of a [`VersionRange`].
pub struct Range {
    pub low: Bound,
    pub high: Bound,
}

impl View for RangeSpecifier {
    type V = Bound;

    open spec fn view(&self) -> Bound {
        match self {
            RangeSpecifier::Open => Bound::Open,
            RangeSpecifier::Inclusive(v) => Bound::Inclusive(v@),
            RangeSpecifier::Exclusive(v) => Bound::Exclusive(v@),
        }
    }
}

impl View for VersionRange {
    type V = Range;

    open spec fn view(&self) -> Range {
        Range { low: self.low@, high: self.high@ }
    }
}

/// Characters a version token is made of: ASCII letters and digits, `-`, `.`, `+`.
pub open spec fn is_token_char(c: char) -> bool {
    ('0' <= c && c <= '9') || ('a' <= c && c <= 'z') || ('A' <= c && c <= 'Z') || c == '-' || c
        == '.' || c == '+'
}

/// ASCII whitespace: space, tab, line feed, form feed, carriage return.
pub open spec fn is_space_char(c: char) -> bool {
    c == ' ' || c == '\t' || c == '\n' || c == '\x0C' || c == '\r'
}

/// A version token: one or more token characters.
pub open spec fn is_token(t: Seq<char>) -> bool {
    t.len() > 0 && forall|i: int| 0 <= i < t.len() ==> is_token_char(#[trigger] t[i])
}

/// A run of whitespace, possibly empty.
pub open spec fn is_blank(w: Seq<char>) -> bool {
    forall|i: int| 0 <= i < w.len() ==> is_space_char(#[trigger] w[i])
}

impl Bound {
    /// A bound is well formed when the text it carries is a version token.
    pub open spec fn wf(self) -> bool {
        match self {
            Bound::Open => true,
            Bound::Inclusive(t) => is_token(t),
            Bound::Exclusive(t) => is_token(t),
        }
    }
}

impl Range {
    /// A range is well formed when both bounds are.
    pub open spec fn wf(self) -> bool {
        self.low.wf() && self.high.wf()
    }
}

/// The position of the first character at or after `from` that is no whitespace
/// (the length of `s` if there is none).
pub open spec fn whitespace_end(s: Seq<char>, from: int) -> int
    decreases s.len() - from,
{
    if 0 <= from < s.len() && is_space_char(s[from]) {
        whitespace_end(s, from + 1)
    } else {
        from
    }
}

/// The position of the first character at or after `from` that is no token
/// character (the length of `s` if there is none).
pub open spec fn token_end(s: Seq<char>, from: int) -> int
    decreases s.len() - from,
{
    if 0 <= from < s.len() && is_token_char(s[from]) {
        token_end(s, from + 1)
    } else {
        from
    }
}

/// The bound that a bracket and the text beside it stand for: no text is an
/// open bound whatever the bracket.
pub open spec fn bound_of(inclusive: bool, token: Seq<char>) -> Bound {
    if token.len() == 0 {
        Bound::Open
    } else if inclusive {
        Bound::Inclusive(token)
    } else {
        Bound::Exclusive(token)
    }
}

/// The form `[low, high]` with either bracket round or square and either
/// token absent: the range it denotes and the position where it ends, or
/// `None` if `s` does not start with this form.
pub open spec fn full_specifier_spec(s: Seq<char>) -> Option<(Range, int)> {
    let open = whitespace_end(s, 0);
    let low_start = whitespace_end(s, open + 1);
    let low_end = token_end(s, low_start);
    let comma = whitespace_end(s, low_end);
    let high_start = whitespace_end(s, comma + 1);
    let high_end = token_end(s, high_start);
    let close = whitespace_end(s, high_end);
    let end = whitespace_end(s, close + 1);
    if open < s.len() && (s[open] == '[' || s[open] == '(') && comma < s.len() && s[comma] == ','
        && close < s.len() && (s[close] == ']' || s[close] == ')') {
        Some(
            (
                Range {
                    low: bound_of(s[open] == '[', s.subrange(low_start, low_end)),
                    high: bound_of(s[close] == ']', s.subrange(high_start, high_end)),
                },
                end,
            ),
        )
    } else {
        None
    }
}

/// The form `[version]`: exactly that version.
pub open spec fn exact_match_spec(s: Seq<char>) -> Option<(Range, int)> {
    let open = whitespace_end(s, 0);
    let start = whitespace_end(s, open + 1);
    let stop = token_end(s, start);
    let close = whitespace_end(s, stop);
    let end = whitespace_end(s, close + 1);
    if open < s.len() && s[open] == '[' && start < stop && close < s.len() && s[close] == ']' {
        let version = s.subrange(start, stop);
        Some((Range { low: Bound::Inclusive(version), high: Bound::Inclusive(version) }, end))
    } else {
        None
    }
}

/// The form `version`: that version or any later one. As in the other
/// forms, whitespace may stand before and after.
pub open spec fn min_version_bare_spec(s: Seq<char>) -> Option<(Range, int)> {
    let start = whitespace_end(s, 0);
    let stop = token_end(s, start);
    let end = whitespace_end(s, stop);
    if start < stop {
        Some((Range { low: Bound::Inclusive(s.subrange(start, stop)), high: Bound::Open }, end))
    } else {
        None
    }
}

/// The first of the three forms that `s` starts with, tried in the order
/// full, exact, bare.
pub open spec fn first_form(s: Seq<char>) -> Option<(Range, int)> {
    if full_specifier_spec(s) is Some {
        full_specifier_spec(s)
    } else if exact_match_spec(s) is Some {
        exact_match_spec(s)
    } else {
        min_version_bare_spec(s)
    }
}

/// The range that the text `s` denotes: that of the first form `s` starts
/// with, provided the form takes up all of `s`.
pub open spec fn parse_range(s: Seq<char>) -> Option<Range> {
    match first_form(s) {
        Some((range, end)) => if end == s.len() {
            Some(range)
        } else {
            None
        },
        None => None,
    }
}

/// The text of a lower bound with its bracket.
pub open spec fn print_low(b: Bound) -> Seq<char> {
    match b {
        Bound::Open => seq!['['],
        Bound::Inclusive(t) => seq!['['] + t,
        Bound::Exclusive(t) => seq!['('] + t,
    }
}

/// The text of an upper bound with its bracket.
pub open spec fn print_high(b: Bound) -> Seq<char> {
    match b {
        Bound::Open => seq![']'],
        Bound::Inclusive(t) => t + seq![']'],
        Bound::Exclusive(t) => t + seq![')'],
    }
}

/// The canonical text of a range: always bracketed, with ` , ` between the
/// two bounds.
pub open spec fn print_range(r: Range) -> Seq<char> {
    print_low(r.low) + seq![' ', ',', ' '] + print_high(r.high)
}

/// Where a scan for whitespace stops, and what lies before that point.
pub proof fn lemma_whitespace_end(s: Seq<char>, from: int)
    requires
        0 <= from <= s.len(),
    ensures
        from <= whitespace_end(s, from) <= s.len(),
        forall|k: int| from <= k < whitespace_end(s, from) ==> is_space_char(#[trigger] s[k]),
        whitespace_end(s, from) < s.len() ==> !is_space_char(s[whitespace_end(s, from)]),
    decreases s.len() - from,
{
    if from < s.len() && is_space_char(s[from]) {
        lemma_whitespace_end(s, from + 1);
    }
}

/// Where a scan for a token stops, and what lies before that point.
pub proof fn lemma_token_end(s: Seq<char>, from: int)
    requires
        0 <= from <= s.len(),
    ensures
        from <= token_end(s, from) <= s.len(),
        forall|k: int| from <= k < token_end(s, from) ==> is_token_char(#[trigger] s[k]),
        token_end(s, from) < s.len() ==> !is_token_char(s[token_end(s, from)]),
    decreases s.len() - from,
{
    if from < s.len() && is_token_char(s[from]) {
        lemma_token_end(s, from + 1);
    }
}

const LEFT_SQUARE: u8 = 91;

const LEFT_ROUND: u8 = 40;

const RIGHT_SQUARE: u8 = 93;

const RIGHT_ROUND: u8 = 41;

const COMMA: u8 = 44;

/// `bytes` holds the ASCII text `s`, one byte for each character.
spec fn ascii_image(bytes: Seq<u8>, s: Seq<char>) -> bool {
    &&& bytes.len() == s.len()
    &&& forall|i: int| 0 <= i < s.len() ==> (#[trigger] s[i]) <= '\u{7f}' && bytes[i] == s[i] as u8
}

fn is_token_byte(b: u8, Ghost(c): Ghost<char>) -> (r: bool)
    requires
        c <= '\u{7f}',
        c as u8 == b,
    ensures
        r == is_token_char(c),
{
    // '0'..='9', 'a'..='z', 'A'..='Z', '-', '.', '+'
    (48 <= b && b <= 57) || (97 <= b && b <= 122) || (65 <= b && b <= 90) || b == 45 || b == 46
        || b == 43
}

fn is_space_byte(b: u8, Ghost(c): Ghost<char>) -> (r: bool)
    requires
        c <= '\u{7f}',
        c as u8 == b,
    ensures
        r == is_space_char(c),
{
    // ' ', '\t', '\n', form feed, '\r'
    b == 32 || b == 9 || b == 10 || b == 12 || b == 13
}

/// Skips whitespace in `input` from `from` on.
fn whitespace(input: &[u8], from: usize, Ghost(s): Ghost<Seq<char>>) -> (end: usize)
    requires
        ascii_image(input@, s),
        from <= input.len(),
    ensures
        end == whitespace_end(s, from as int),
        from <= end <= input.len(),
{
    let mut i: usize = from;
    while i < input.len() && is_space_byte(input[i], Ghost(s[i as int]))
        invariant
            ascii_image(input@, s),
            from <= i <= input.len(),
            whitespace_end(s, from as int) == whitespace_end(s, i as int),
        decreases input.len() - i,
    {
        i += 1;
    }
    i
}

/// Skips token characters in `input` from `from` on.
fn version_ident(input: &[u8], from: usize, Ghost(s): Ghost<Seq<char>>) -> (end: usize)
    requires
        ascii_image(input@, s),
        from <= input.len(),
    ensures
        end == token_end(s, from as int),
        from <= end <= input.len(),
{
    let mut i: usize = from;
    while i < input.len() && is_token_byte(input[i], Ghost(s[i as int]))
        invariant
            ascii_image(input@, s),
            from <= i <= input.len(),
            token_end(s, from as int) == token_end(s, i as int),
        decreases input.len() - i,
    {
        i += 1;
    }
    i
}

/// The bound that a bracket and the text `input[from..to]` stand for.
fn specifier(input: &str, inclusive: bool, from: usize, to: usize) -> (r: RangeSpecifier)
    requires
        input.is_ascii(),
        from <= to <= input@.len(),
    ensures
        r@ == bound_of(inclusive, input@.subrange(from as int, to as int)),
{
    if from == to {
        RangeSpecifier::Open
    } else {
        let token = input.substring_ascii(from, to).to_owned();
        if inclusive {
            RangeSpecifier::Inclusive(token)
        } else {
            RangeSpecifier::Exclusive(token)
        }
    }
}

/// The ASCII bytes of `input`.
fn ascii_bytes(input: &str) -> (bytes: &[u8])
    requires
        input.is_ascii(),
    ensures
        ascii_image(bytes@, input@),
{
    proof {
        is_ascii_spec_bytes(input);
    }
    input.as_bytes()
}

fn full_specifier(input: &str) -> (r: Option<(VersionRange, usize)>)
    requires
        input.is_ascii(),
    ensures
        match full_specifier_spec(input@) {
            Some((range, end)) => r matches Some((v, e)) && v@ == range && e == end,
            None => r is None,
        },
{
    let bytes = ascii_bytes(input);
    let ghost s = input@;
    let n = bytes.len();
    let open = whitespace(bytes, 0, Ghost(s));
    if open >= n || !(bytes[open] == LEFT_SQUARE || bytes[open] == LEFT_ROUND) {
        return None;
    }
    let low_start = whitespace(bytes, open + 1, Ghost(s));
    let low_end = version_ident(bytes, low_start, Ghost(s));
    let comma = whitespace(bytes, low_end, Ghost(s));
    if comma >= n || bytes[comma] != COMMA {
        return None;
    }
    let high_start = whitespace(bytes, comma + 1, Ghost(s));
    let high_end = version_ident(bytes, high_start, Ghost(s));
    let close = whitespace(bytes, high_end, Ghost(s));
    if close >= n || !(bytes[close] == RIGHT_SQUARE || bytes[close] == RIGHT_ROUND) {
        return None;
    }
    let end = whitespace(bytes, close + 1, Ghost(s));
    let low = specifier(input, bytes[open] == LEFT_SQUARE, low_start, low_end);
    let high = specifier(input, bytes[close] == RIGHT_SQUARE, high_start, high_end);
    Some((VersionRange { low, high }, end))
}

fn exact_match(input: &str) -> (r: Option<(VersionRange, usize)>)
    requires
        input.is_ascii(),
    ensures
        match exact_match_spec(input@) {
            Some((range, end)) => r matches Some((v, e)) && v@ == range && e == end,
            None => r is None,
        },
{
    let bytes = ascii_bytes(input);
    let ghost s = input@;
    let n = bytes.len();
    let open = whitespace(bytes, 0, Ghost(s));
    if open >= n || bytes[open] != LEFT_SQUARE {
        return None;
    }
    let start = whitespace(bytes, open + 1, Ghost(s));
    let stop = version_ident(bytes, start, Ghost(s));
    if start >= stop {
        return None;
    }
    let close = whitespace(bytes, stop, Ghost(s));
    if close >= n || bytes[close] != RIGHT_SQUARE {
        return None;
    }
    let end = whitespace(bytes, close + 1, Ghost(s));
    let low = RangeSpecifier::Inclusive(input.substring_ascii(start, stop).to_owned());
    let high = RangeSpecifier::Inclusive(input.substring_ascii(start, stop).to_owned());
    Some((VersionRange { low, high }, end))
}

fn min_version_bare(input: &str) -> (r: Option<(VersionRange, usize)>)
    requires
        input.is_ascii(),
    ensures
        match min_version_bare_spec(input@) {
            Some((range, end)) => r matches Some((v, e)) && v@ == range && e == end,
            None => r is None,
        },
{
    let bytes = ascii_bytes(input);
    let ghost s = input@;
    let start = whitespace(bytes, 0, Ghost(s));
    let stop = version_ident(bytes, start, Ghost(s));
    if start >= stop {
        return None;
    }
    let end = whitespace(bytes, stop, Ghost(s));
    let low = RangeSpecifier::Inclusive(input.substring_ascii(start, stop).to_owned());
    Some((VersionRange { low, high: RangeSpecifier::Open }, end))
}

impl VersionRange {
    /// Reads a version range. The text is a range exactly when `parse_range`
    /// gives one, and then the range is well formed; any other text comes
    /// back inside the error.
    pub fn from_str(s: &str) -> (r: Result<VersionRange, Error>)
        ensures
            match parse_range(s@) {
                Some(range) => r matches Ok(v) && v@ == range && range.wf(),
                None => r matches Err(Error::InvalidVersionRange(text)) && text@ == s@,
            },
    {
        proof {
            if parse_range(s@) is Some {
                parsed_range_is_well_formed(s@);
            }
        }
        if !s.is_ascii() {
            proof {
                if parse_range(s@) is Some {
                    range_text_is_ascii(s@);
                }
            }
            return Err(Error::InvalidVersionRange(s.to_owned()));
        }
        let n = ascii_bytes(s).len();
        let first = match full_specifier(s) {
            Some(found) => Some(found),
            None => match exact_match(s) {
                Some(found) => Some(found),
                None => min_version_bare(s),
            },
        };
        match first {
            Some((range, end)) => if end == n {
                Ok(range)
            } else {
                Err(Error::InvalidVersionRange(s.to_owned()))
            },
            None => Err(Error::InvalidVersionRange(s.to_owned())),
        }
    }

    /// Writes the range in its canonical form.
    pub fn to_string(&self) -> (text: String)
        ensures
            text@ == print_range(self@),
    {
        proof {
            reveal_strlit("[");
            reveal_strlit("(");
            reveal_strlit(" , ");
            reveal_strlit("]");
            reveal_strlit(")");
        }
        let mut text = String::new();
        match &self.low {
            RangeSpecifier::Open => {
                text.append("[");
            },
            RangeSpecifier::Inclusive(v) => {
                text.append("[");
                text.append(v.as_str());
            },
            RangeSpecifier::Exclusive(v) => {
                text.append("(");
                text.append(v.as_str());
            },
        }
        text.append(" , ");
        match &self.high {
            RangeSpecifier::Open => {
                text.append("]");
            },
            RangeSpecifier::Inclusive(v) => {
                text.append(v.as_str());
                text.append("]");
            },
            RangeSpecifier::Exclusive(v) => {
                text.append(v.as_str());
                text.append(")");
            },
        }
        text
    }
}

impl std::str::FromStr for VersionRange {
    type Err = Error;

    fn from_str(s: &str) -> (r: Result<VersionRange, Error>)
        ensures
            match parse_range(s@) {
                Some(range) => r matches Ok(v) && v@ == range && range.wf(),
                None => r matches Err(Error::InvalidVersionRange(text)) && text@ == s@,
            },
    {
        VersionRange::from_str(s)
    }
}

} // verus!
