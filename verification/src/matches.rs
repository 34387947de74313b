//! Matching file names against a pattern.
//!
//! A pattern is either a regular expression or a literal with wild
//! cards, in which a dot stands for itself and `*` for any text. Both
//! are turned into the source text of one regular expression, with the
//! anchors that the bounds ask for. Whether a text matches that
//! expression is decided by the crate `string_patterns`. A pattern that
//! is no regular expression is an error, `InvalidPattern`, wherever it
//! is held against a text; it never counts as a pattern that matches
//! nothing.

use vstd::prelude::*;
use crate::errors::ScanError;
use crate::text::append_chars;
use crate::text::append_str;
use crate::text::chars_of;
use crate::text::text_of;

verus! {

/// Where a pattern has to stand in a name.
#[derive(Debug, Copy, Clone, PartialEq, Eq, Structural)]
pub enum MatchBounds {
    /// Anywhere.
    Open,
    /// At its start.
    Start,
    /// At its end, or before its extension.
    End,
}

/// How a pattern is written.
#[derive(Debug, Copy, Clone, PartialEq, Eq, Structural)]
pub enum MatchMode {
    /// With wild cards: a dot is a dot, `*` is any text.
    Literal,
    /// As a regular expression.
    Regex,
}

/// The error of `string_patterns`, which is that of the crate `regex`:
/// why a pattern is no regular expression.
#[verifier::external_type_specification]
#[verifier::external_body]
pub struct ExPatternError(string_patterns::Error);

/// The texts in which the regular expression `pattern` finds a match,
/// with or without regard to case; `None` where `pattern` is no
/// regular expression.
pub uninterp spec fn regex_language(pattern: Seq<char>, case_insensitive: bool) -> Option<
    Set<Seq<char>>,
>;

/// The regular expression `pattern` finds a match in `text`. Of an
/// expression that is none this is never so; the functions of the
/// library report such an expression as an error.
pub open spec fn pattern_accepts(pattern: Seq<char>, case_insensitive: bool, text: Seq<char>)
    -> bool {
    match regex_language(pattern, case_insensitive) {
        Some(language) => language.contains(text),
        None => false,
    }
}

/// `s` with `with` in place of every `c`.
pub open spec fn replaced(s: Seq<char>, c: char, with: Seq<char>) -> Seq<char>
    decreases s.len(),
{
    if s.len() == 0 {
        Seq::empty()
    } else if s.last() == c {
        replaced(s.drop_last(), c, with) + with
    } else {
        replaced(s.drop_last(), c, with).push(s.last())
    }
}

/// The regular expression for a literal with wild cards: every dot
/// escaped, then every `*` turned into `.*`.
pub open spec fn literal_source(pattern: Seq<char>) -> Seq<char> {
    replaced(replaced(pattern, '.', seq!['\\', '.']), '*', seq!['.', '*'])
}

/// What stands for an optional extension and the end of the name:
/// `(\.\w+)?$`.
pub open spec fn end_anchor() -> Seq<char> {
    seq!['(', '\\', '.', '\\', 'w', '+', ')', '?', '$']
}

/// The source text of the regular expression that `pattern` stands for.
///
/// - With `Start` bounds it begins with `^`, unless `pattern` does.
/// - With `End` bounds it ends with `(\.\w+)?$`, unless `pattern` ends
///   with `$`.
/// - Between the anchors stands `pattern` itself, or the regular
///   expression for it where it is a literal.
pub open spec fn regex_source(pattern: Seq<char>, bounds: MatchBounds, mode: MatchMode) -> Seq<
    char,
> {
    let head = if bounds == MatchBounds::Start && !(pattern.len() > 0 && pattern[0] == '^') {
        seq!['^']
    } else {
        Seq::empty()
    };
    let body = if mode == MatchMode::Literal {
        literal_source(pattern)
    } else {
        pattern
    };
    let tail = if bounds == MatchBounds::End && !(pattern.len() > 0 && pattern.last() == '$') {
        end_anchor()
    } else {
        Seq::empty()
    };
    head + body + tail
}

/// `<str as PatternMatch>::pattern_match_result` of `string_patterns`:
/// compiles `pattern` as a regular expression, with the flag `(?i)`
/// before it where `case_insensitive` is set and `pattern` does not
/// begin with `(?`, and searches `text` for a match. The error is that
/// of the compilation, so it depends on the pattern and the flag alone;
/// the answer depends on these and the text alone.
#[verifier::external_body]
fn pattern_match_result(text: &str, pattern: &str, case_insensitive: bool) -> (r: Result<
    bool,
    string_patterns::Error,
>)
    ensures
        match r {
            Ok(found) => regex_language(pattern@, case_insensitive) matches Some(language)
                && found == language.contains(text@),
            Err(_) => regex_language(pattern@, case_insensitive) is None,
        },
{
    string_patterns::PatternMatch::pattern_match_result(&text, pattern, case_insensitive)
}

/// The characters of `v` with `with` in place of every `c`.
fn replace_chars(v: &Vec<char>, c: char, with: &Vec<char>) -> (out: Vec<char>)
    ensures
        out@ == replaced(v@, c, with@),
{
    let mut out: Vec<char> = Vec::new();
    let mut i: usize = 0;
    while i < v.len()
        invariant
            i <= v.len(),
            out@ == replaced(v@.take(i as int), c, with@),
        decreases v.len() - i,
    {
        proof {
            assert(v@.take(i + 1).drop_last() == v@.take(i as int));
            assert(v@.take(i + 1).last() == v@[i as int]);
        }
        if v[i] == c {
            append_chars(&mut out, with);
        } else {
            out.push(v[i]);
        }
        i += 1;
    }
    assert(v@.take(v.len() as int) == v@);
    out
}

/// The source text of the regular expression that `pattern` stands for.
pub fn build_pattern(pattern: &str, bounds: MatchBounds, mode: MatchMode) -> (r: String)
    ensures
        r@ == regex_source(pattern@, bounds, mode),
{
    let p = chars_of(pattern);
    let n: usize = p.len();
    let mut out: Vec<char> = Vec::new();
    match bounds {
        MatchBounds::Start => {
            if !(n > 0 && p[0] == '^') {
                out.push('^');
            }
        },
        _ => {},
    }
    let ghost head = out@;
    match mode {
        MatchMode::Literal => {
            let mut dot: Vec<char> = Vec::new();
            dot.push('\\');
            dot.push('.');
            let mut any: Vec<char> = Vec::new();
            any.push('.');
            any.push('*');
            assert(dot@ == seq!['\\', '.']);
            assert(any@ == seq!['.', '*']);
            let escaped = replace_chars(&p, '.', &dot);
            let expanded = replace_chars(&escaped, '*', &any);
            append_chars(&mut out, &expanded);
        },
        MatchMode::Regex => {
            append_chars(&mut out, &p);
        },
    }
    match bounds {
        MatchBounds::End => {
            if !(n > 0 && p[n - 1] == '$') {
                append_str(&mut out, "(\\.\\w+)?$");
                proof {
                    reveal_strlit("(\\.\\w+)?$");
                    assert("(\\.\\w+)?$"@ == end_anchor());
                }
            }
        },
        _ => {},
    }
    assert(out@ == regex_source(pattern@, bounds, mode));
    text_of(&out)
}

/// A pattern that was found to be a regular expression, ready to be
/// held against names. There is no matcher for a pattern that is none.
pub struct Matcher {
    source: String,
    case_insensitive: bool,
}

impl Matcher {
    /// The matcher's pattern is a regular expression.
    #[verifier::type_invariant]
    spec fn valid(&self) -> bool {
        regex_language(self.source@, self.case_insensitive) is Some
    }

    /// The source text of the matcher's regular expression.
    pub closed spec fn source_text(&self) -> Seq<char> {
        self.source@
    }

    /// Whether the matcher passes over the case of letters.
    pub closed spec fn ignores_case(&self) -> bool {
        self.case_insensitive
    }

    /// The matcher finds its pattern in `text`.
    pub open spec fn accepts(&self, text: Seq<char>) -> bool {
        pattern_accepts(self.source_text(), self.ignores_case(), text)
    }

    /// The source text of the matcher's regular expression.
    pub fn source(&self) -> (r: &str)
        ensures
            r@ == self.source_text(),
    {
        self.source.as_str()
    }

    /// Whether the matcher passes over the case of letters.
    pub fn case_insensitive(&self) -> (r: bool)
        ensures
            r == self.ignores_case(),
    {
        self.case_insensitive
    }

    /// Whether the pattern is found in `text`.
    pub fn is_match(&self, text: &str) -> (r: bool)
        ensures
            r == self.accepts(text@),
            regex_language(self.source_text(), self.ignores_case()) is Some,
    {
        proof {
            use_type_invariant(self);
        }
        match pattern_match_result(text, self.source.as_str(), self.case_insensitive) {
            Ok(found) => found,
            Err(_) => false,
        }
    }
}

/// The answer of a search in the library's terms: whether a match was
/// found, or `InvalidPattern` where the pattern was no regular
/// expression.
pub fn verdict(outcome: Result<bool, string_patterns::Error>) -> (r: Result<bool, ScanError>)
    ensures
        match outcome {
            Ok(found) => r == Ok::<bool, ScanError>(found),
            Err(_) => r == Err::<bool, ScanError>(ScanError::InvalidPattern),
        },
{
    match outcome {
        Ok(found) => Ok(found),
        Err(_) => Err(ScanError::InvalidPattern),
    }
}

/// Makes the matcher for `pattern`. Fails with `InvalidPattern` exactly
/// where the regular expression that `pattern` stands for is none.
pub fn build_matcher(
    pattern: &str,
    case_insensitive: bool,
    bounds: MatchBounds,
    mode: MatchMode,
) -> (r: Result<Matcher, ScanError>)
    ensures
        r is Ok <==> regex_language(regex_source(pattern@, bounds, mode), case_insensitive)
            is Some,
        r matches Ok(m) ==> m.source_text() == regex_source(pattern@, bounds, mode)
            && m.ignores_case() == case_insensitive,
        r matches Err(e) ==> e == ScanError::InvalidPattern,
{
    let source = build_pattern(pattern, bounds, mode);
    match pattern_match_result("", source.as_str(), case_insensitive) {
        Ok(_) => Ok(Matcher { source, case_insensitive }),
        Err(_) => Err(ScanError::InvalidPattern),
    }
}

/// Whether `source` matches `pattern` under the bounds and the mode
/// given. Fails with `InvalidPattern` exactly where the regular
/// expression that `pattern` stands for is none.
pub fn match_string(
    source: String,
    pattern: &str,
    case_insensitive: bool,
    bounds: MatchBounds,
    mode: MatchMode,
) -> (r: Result<bool, ScanError>)
    ensures
        r is Err <==> regex_language(regex_source(pattern@, bounds, mode), case_insensitive)
            is None,
        r matches Err(e) ==> e == ScanError::InvalidPattern,
        r matches Ok(found) ==> found == pattern_accepts(
            regex_source(pattern@, bounds, mode),
            case_insensitive,
            source@,
        ),
{
    let corrected = build_pattern(pattern, bounds, mode);
    verdict(pattern_match_result(source.as_str(), corrected.as_str(), case_insensitive))
}

/// Whether `source` ends with the regular expression `pattern`, or
/// with it and an extension. Fails with `InvalidPattern` exactly where
/// `pattern`, so anchored, is no regular expression.
pub fn string_ends_with(source: &str, pattern: &str) -> (r: Result<bool, ScanError>)
    ensures
        r is Err <==> regex_language(
            regex_source(pattern@, MatchBounds::End, MatchMode::Regex),
            false,
        ) is None,
        r matches Err(e) ==> e == ScanError::InvalidPattern,
        r matches Ok(found) ==> found == pattern_accepts(
            regex_source(pattern@, MatchBounds::End, MatchMode::Regex),
            false,
            source@,
        ),
{
    match_string(source.to_owned(), pattern, false, MatchBounds::End, MatchMode::Regex)
}

/// A regular expression with open bounds is taken as it is.
pub proof fn lemma_regex_passthrough(pattern: Seq<char>)
    ensures
        regex_source(pattern, MatchBounds::Open, MatchMode::Regex) == pattern,
{
}

/// Without the character `c` in it, a text is its own replacement.
pub proof fn lemma_replaced_without(s: Seq<char>, c: char, with: Seq<char>)
    requires
        !s.contains(c),
    ensures
        replaced(s, c, with) == s,
    decreases s.len(),
{
    if s.len() > 0 {
        assert(s.last() == s[s.len() - 1]);
        assert forall|i: int| 0 <= i < s.drop_last().len() implies s.drop_last()[i] != c by {
            assert(s.drop_last()[i] == s[i]);
        }
        lemma_replaced_without(s.drop_last(), c, with);
        assert(s.drop_last().push(s.last()) == s);
    }
}

/// A literal without a dot and without a star stands for itself.
pub proof fn lemma_plain_literal(pattern: Seq<char>)
    requires
        !pattern.contains('.'),
        !pattern.contains('*'),
    ensures
        literal_source(pattern) == pattern,
{
    lemma_replaced_without(pattern, '.', seq!['\\', '.']);
    lemma_replaced_without(pattern, '*', seq!['.', '*']);
}

} // verus!
