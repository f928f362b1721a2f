//! URL patterns of locations and their order of precedence.
use vstd::prelude::*;
use vstd::string::*;
use vstd::utf8::*;

use crate::number::{decimal, push_decimal};
use crate::outside::{check_regex, find_regex, regex_compiles, regex_fault, regex_match};
use crate::parse::ast::{AstDirective, Spanned};
use crate::parse::builtin::DirectiveError;
use crate::parse::decode::DirectiveValue;
use crate::parse::source::{SourceMap, SourceSpan};
use crate::text::{has_prefix, join2, join3, starts_with, str_eq, texts};

verus! {

/// A regular expression that can be built.
#[derive(Debug, PartialEq, Eq)]
pub struct Regex {
    pattern: String,
}

/// Why a text is no regular expression.
#[derive(Debug, PartialEq, Eq)]
pub struct InvalidRegex {
    pub reason: String,
}

impl InvalidRegex {
    pub open spec fn text(self) -> Seq<char> {
        self.reason@
    }

    pub fn message(&self) -> (text: String)
        ensures
            text@ == self.text(),
    {
        self.reason.clone()
    }
}

impl View for Regex {
    type V = Seq<char>;

    closed spec fn view(&self) -> Seq<char> {
        self.pattern@
    }
}

impl Regex {
    #[verifier::type_invariant]
    spec fn checked(self) -> bool {
        regex_compiles(self.pattern@)
    }

    pub fn new(pattern: &str) -> (result: Result<Self, InvalidRegex>)
        ensures
            match result {
                Ok(regex) => regex_compiles(pattern@) && regex@ == pattern@,
                Err(error) => regex_fault(pattern@) == Some(error.text()),
            },
    {
        match check_regex(pattern) {
            None => Ok(Regex { pattern: pattern.to_owned() }),
            Some(reason) => Err(InvalidRegex { reason }),
        }
    }

    /// What the first match spells.
    pub fn find<'t>(&self, text: &'t str) -> (found: Option<&'t str>)
        ensures
            match found {
                Some(found) => regex_match(self@, text@) == Some(found@),
                None => regex_match(self@, text@) is None,
            },
    {
        find_regex(self.pattern.as_str(), text)
    }

    pub fn as_str(&self) -> (pattern: &str)
        ensures
            pattern@ == self@,
    {
        self.pattern.as_str()
    }
}

impl Clone for Regex {
    fn clone(&self) -> (copy: Self)
        ensures
            copy@ == self@,
    {
        proof {
            use_type_invariant(self);
        }
        Regex { pattern: self.pattern.clone() }
    }
}

/// What a location matches.
#[derive(Debug, PartialEq, Eq)]
pub enum Pattern {
    /// The whole path (`=`).
    Exact(String),
    /// A prefix that goes before regular expressions (`^~`).
    Prefix(String),
    /// A regular expression (`~`).
    Regex(Regex),
    /// A regular expression that ignores case (`~*`).
    CRegex(Regex),
    /// A prefix.
    NormalPrefix(String),
    /// Every path (`/`).
    Common,
}

/// What a location matches, as characters.
pub enum PatternView {
    Exact(Seq<char>),
    Prefix(Seq<char>),
    Regex(Seq<char>),
    CRegex(Seq<char>),
    NormalPrefix(Seq<char>),
    Common,
}

impl View for Pattern {
    type V = PatternView;

    open spec fn view(&self) -> PatternView {
        match *self {
            Pattern::Exact(text) => PatternView::Exact(text@),
            Pattern::Prefix(text) => PatternView::Prefix(text@),
            Pattern::Regex(regex) => PatternView::Regex(regex@),
            Pattern::CRegex(regex) => PatternView::CRegex(regex@),
            Pattern::NormalPrefix(text) => PatternView::NormalPrefix(text@),
            Pattern::Common => PatternView::Common,
        }
    }
}

/// The precedence of a pattern: exact paths first, then `^~` prefixes, regular expressions,
/// prefixes, and `/` last.
pub open spec fn pattern_priority(pattern: PatternView) -> nat {
    match pattern {
        PatternView::Exact(_) => 4,
        PatternView::Prefix(_) => 3,
        PatternView::Regex(_) => 2,
        PatternView::CRegex(_) => 2,
        PatternView::NormalPrefix(_) => 1,
        PatternView::Common => 0,
    }
}

/// The part of a path that a pattern matches.
pub open spec fn pattern_match(pattern: PatternView, path: Seq<char>) -> Option<Seq<char>> {
    match pattern {
        PatternView::Exact(text) => if path == text {
            Some(text)
        } else {
            None
        },
        PatternView::Prefix(text) => if has_prefix(path, text) {
            Some(text)
        } else {
            None
        },
        PatternView::Regex(regex) => regex_match(regex, path),
        PatternView::CRegex(regex) => regex_match(regex, path),
        PatternView::NormalPrefix(text) => if has_prefix(path, text) {
            Some(text)
        } else {
            None
        },
        PatternView::Common => Some("/"@),
    }
}

/// Whether a pattern is a regular expression.
pub open spec fn is_regex(pattern: PatternView) -> bool {
    pattern is Regex || pattern is CRegex
}

/// Why arguments do not form a pattern.
#[derive(Debug, PartialEq, Eq)]
pub enum ParsePatternError {
    UnsupportedSymbol { symbol: String },
    RegexError { source: InvalidRegex, pattern: String },
    UnexpectedArgs { nargs: usize },
}

impl ParsePatternError {
    /// The message of this error.
    pub open spec fn text(self) -> Seq<char> {
        match self {
            ParsePatternError::UnsupportedSymbol { symbol } => "Unsupported location symbol `"@
                + symbol@ + "`"@,
            ParsePatternError::RegexError { pattern, .. } => "Invalid regex `"@ + pattern@ + "`"@,
            ParsePatternError::UnexpectedArgs {
                nargs,
            } => "number of location args must be 1 or 2, got "@ + decimal(nargs as nat),
        }
    }

    /// The message of this error.
    pub fn message(&self) -> (text: String)
        ensures
            text@ == self.text(),
    {
        match self {
            ParsePatternError::UnsupportedSymbol { symbol } => join3(
                "Unsupported location symbol `",
                symbol.as_str(),
                "`",
            ),
            ParsePatternError::RegexError { pattern, .. } => join3(
                "Invalid regex `",
                pattern.as_str(),
                "`",
            ),
            ParsePatternError::UnexpectedArgs { nargs } => {
                let mut text = "number of location args must be 1 or 2, got ".to_owned();
                push_decimal(&mut text, *nargs as u64);
                text
            },
        }
    }

    /// The messages of this error and of what caused it, outermost first.
    pub open spec fn chain(self) -> Seq<Seq<char>> {
        match self {
            ParsePatternError::RegexError { source, .. } => seq![self.text(), source.text()],
            _ => seq![self.text()],
        }
    }

    /// The messages of this error and of what caused it, outermost first.
    pub fn messages(&self) -> (list: Vec<String>)
        ensures
            texts(list@) == self.chain(),
    {
        let mut list: Vec<String> = Vec::new();
        list.push(self.message());
        match self {
            ParsePatternError::RegexError { source, .. } => {
                list.push(source.message());
            },
            _ => {},
        }
        assert(texts(list@) =~= self.chain());
        list
    }
}

/// The pattern that location arguments form.
pub open spec fn is_parsed_pattern(
    args: Seq<Seq<char>>,
    result: Result<PatternView, ParsePatternError>,
) -> bool {
    if args.len() == 1 && args[0] == "/"@ {
        result == Ok::<PatternView, ParsePatternError>(PatternView::Common)
    } else if args.len() == 1 && has_prefix(args[0], "/"@) {
        result == Ok::<PatternView, ParsePatternError>(PatternView::NormalPrefix(args[0]))
    } else if args.len() == 2 {
        if args[0] == "="@ {
            result == Ok::<PatternView, ParsePatternError>(PatternView::Exact(args[1]))
        } else if args[0] == "^~"@ {
            result == Ok::<PatternView, ParsePatternError>(PatternView::Prefix(args[1]))
        } else if args[0] == "~"@ {
            regex_or_error(args[1], false, result)
        } else if args[0] == "~*"@ {
            regex_or_error("(?i)"@ + args[1], true, result)
        } else {
            result matches Err(ParsePatternError::UnsupportedSymbol { symbol }) && symbol@ == args[0]
        }
    } else {
        result matches Err(ParsePatternError::UnexpectedArgs { nargs }) && nargs == args.len()
    }
}

/// A regular expression location, or the expression that cannot be built.
pub open spec fn regex_or_error(
    regex: Seq<char>,
    ignore_case: bool,
    result: Result<PatternView, ParsePatternError>,
) -> bool {
    if !regex_compiles(regex) {
        result matches Err(ParsePatternError::RegexError { source, pattern }) && pattern@ == regex
            && regex_fault(regex) == Some(source.text())
    } else if ignore_case {
        result == Ok::<PatternView, ParsePatternError>(PatternView::CRegex(regex))
    } else {
        result == Ok::<PatternView, ParsePatternError>(PatternView::Regex(regex))
    }
}

/// The result of reading a pattern, as characters.
pub open spec fn pattern_result(result: Result<Pattern, ParsePatternError>) -> Result<
    PatternView,
    ParsePatternError,
> {
    match result {
        Ok(pattern) => Ok(pattern@),
        Err(error) => Err(error),
    }
}

/// Arguments with their places, as characters.
pub open spec fn spanned_texts(args: Seq<Spanned<String>>) -> Seq<Seq<char>> {
    args.map_values(|arg: Spanned<String>| arg.value@)
}

fn one_word(pattern: &String) -> (result: Result<Pattern, ParsePatternError>)
    ensures
        is_parsed_pattern(seq![pattern@], pattern_result(result)),
{
    if str_eq(pattern.as_str(), "/") {
        Ok(Pattern::Common)
    } else if starts_with(pattern.as_str(), "/") {
        Ok(Pattern::NormalPrefix(pattern.clone()))
    } else {
        Err(ParsePatternError::UnexpectedArgs { nargs: 1 })
    }
}

fn two_words(symbol: &String, pattern: &String) -> (result: Result<Pattern, ParsePatternError>)
    ensures
        is_parsed_pattern(seq![symbol@, pattern@], pattern_result(result)),
{
    if str_eq(symbol.as_str(), "=") {
        Ok(Pattern::Exact(pattern.clone()))
    } else if str_eq(symbol.as_str(), "^~") {
        Ok(Pattern::Prefix(pattern.clone()))
    } else if str_eq(symbol.as_str(), "~") {
        match Regex::new(pattern.as_str()) {
            Ok(regex) => Ok(Pattern::Regex(regex)),
            Err(source) => Err(
                ParsePatternError::RegexError { source, pattern: pattern.clone() },
            ),
        }
    } else if str_eq(symbol.as_str(), "~*") {
        let regex = join2("(?i)", pattern.as_str());
        match Regex::new(regex.as_str()) {
            Ok(regex) => Ok(Pattern::CRegex(regex)),
            Err(source) => Err(ParsePatternError::RegexError { source, pattern: regex }),
        }
    } else {
        Err(ParsePatternError::UnsupportedSymbol { symbol: symbol.clone() })
    }
}

/// Reads the arguments of a location.
pub fn parse_pattern(args: &Vec<String>) -> (result: Result<Pattern, ParsePatternError>)
    ensures
        is_parsed_pattern(texts(args@), pattern_result(result)),
{
    if args.len() == 1 {
        assert(texts(args@) =~= seq![args@[0]@]);
        one_word(&args[0])
    } else if args.len() == 2 {
        assert(texts(args@) =~= seq![args@[0]@, args@[1]@]);
        two_words(&args[0], &args[1])
    } else {
        Err(ParsePatternError::UnexpectedArgs { nargs: args.len() })
    }
}

/// Reads the arguments of a location, with their places.
pub fn parse_spanned_pattern(args: &Vec<Spanned<String>>) -> (result: Result<
    Pattern,
    ParsePatternError,
>)
    ensures
        is_parsed_pattern(spanned_texts(args@), pattern_result(result)),
{
    if args.len() == 1 {
        assert(spanned_texts(args@) =~= seq![args@[0].value@]);
        one_word(&args[0].value)
    } else if args.len() == 2 {
        assert(spanned_texts(args@) =~= seq![args@[0].value@, args@[1].value@]);
        two_words(&args[0].value, &args[1].value)
    } else {
        Err(ParsePatternError::UnexpectedArgs { nargs: args.len() })
    }
}

impl Pattern {
    pub fn priority(&self) -> (priority: usize)
        ensures
            priority == pattern_priority(self@),
    {
        match self {
            Pattern::Exact(_) => 4,
            Pattern::Prefix(_) => 3,
            Pattern::Regex(_) => 2,
            Pattern::CRegex(_) => 2,
            Pattern::NormalPrefix(_) => 1,
            Pattern::Common => 0,
        }
    }

    /// The part of `path` that this pattern matches.
    pub fn try_match<'s>(&'s self, path: &'s str) -> (found: Option<&'s str>)
        ensures
            match found {
                Some(found) => pattern_match(self@, path@) == Some(found@),
                None => pattern_match(self@, path@) is None,
            },
    {
        match self {
            Pattern::Exact(text) => if str_eq(path, text.as_str()) {
                Some(text.as_str())
            } else {
                None
            },
            Pattern::Prefix(text) => if starts_with(path, text.as_str()) {
                Some(text.as_str())
            } else {
                None
            },
            Pattern::Regex(regex) => regex.find(path),
            Pattern::CRegex(regex) => regex.find(path),
            Pattern::NormalPrefix(text) => if starts_with(path, text.as_str()) {
                Some(text.as_str())
            } else {
                None
            },
            Pattern::Common => Some("/"),
        }
    }

    /// Whether this is a regular expression.
    pub fn is_regex(&self) -> (yes: bool)
        ensures
            yes == is_regex(self@),
    {
        match self {
            Pattern::Regex(_) => true,
            Pattern::CRegex(_) => true,
            _ => false,
        }
    }
}

impl Clone for Pattern {
    fn clone(&self) -> (copy: Self)
        ensures
            copy@ == self@,
    {
        match self {
            Pattern::Exact(text) => Pattern::Exact(text.clone()),
            Pattern::Prefix(text) => Pattern::Prefix(text.clone()),
            Pattern::Regex(regex) => Pattern::Regex(regex.clone()),
            Pattern::CRegex(regex) => Pattern::CRegex(regex.clone()),
            Pattern::NormalPrefix(text) => Pattern::NormalPrefix(text.clone()),
            Pattern::Common => Pattern::Common,
        }
    }
}

/// The rank of a pattern for a path: its precedence, then the number of bytes that it
/// matches.
pub open spec fn match_rank(pattern: PatternView, path: Seq<char>) -> (nat, nat) {
    (
        pattern_priority(pattern),
        match pattern_match(pattern, path) {
            Some(found) => encode_utf8(found).len(),
            None => 0,
        },
    )
}

/// Whether one rank goes before another.
pub open spec fn rank_above(one: (nat, nat), other: (nat, nat)) -> bool {
    one.0 > other.0 || (one.0 == other.0 && one.1 > other.1)
}

/// The patterns of a list, as characters.
pub open spec fn pattern_views(patterns: Seq<Pattern>) -> Seq<PatternView> {
    patterns.map_values(|pattern: Pattern| pattern@)
}

/// The location that serves a path: among those that match it, none ranks above the chosen one,
/// and the chosen one ranks above all that stand before it.
pub open spec fn is_matched_location(
    patterns: Seq<PatternView>,
    path: Seq<char>,
    chosen: Option<int>,
) -> bool {
    match chosen {
        None => forall|i: int|
            0 <= i < patterns.len() ==> pattern_match(#[trigger] patterns[i], path) is None,
        Some(at) => {
            &&& 0 <= at < patterns.len()
            &&& pattern_match(patterns[at], path) is Some
            &&& forall|i: int|
                0 <= i < patterns.len() && pattern_match(#[trigger] patterns[i], path) is Some ==> {
                    &&& !rank_above(match_rank(patterns[i], path), match_rank(patterns[at], path))
                    &&& i < at ==> rank_above(
                        match_rank(patterns[at], path),
                        match_rank(patterns[i], path),
                    )
                }
        },
    }
}

/// The location that serves `path`: the one with the highest precedence and, among those, the
/// longest match; the first of equals. Returned with what it matched.
pub fn match_location<'s>(patterns: &'s Vec<Pattern>, path: &'s str) -> (chosen: Option<
    (usize, &'s str),
>)
    ensures
        match chosen {
            Some((at, found)) => is_matched_location(
                pattern_views(patterns@),
                path@,
                Some(at as int),
            ) && pattern_match(patterns@[at as int]@, path@) == Some(found@),
            None => is_matched_location(pattern_views(patterns@), path@, None),
        },
{
    let ghost views = pattern_views(patterns@);
    let mut best: Option<(usize, &'s str)> = None;
    let mut best_priority: usize = 0;
    let mut best_len: usize = 0;
    let mut i: usize = 0;
    while i < patterns.len()
        invariant
            i <= patterns@.len(),
            views == pattern_views(patterns@),
            match best {
                None => forall|k: int|
                    0 <= k < i ==> pattern_match(#[trigger] views[k], path@) is None,
                Some((at, found)) => {
                    &&& at < i
                    &&& pattern_match(views[at as int], path@) == Some(found@)
                    &&& match_rank(views[at as int], path@) == (
                        best_priority as nat,
                        best_len as nat,
                    )
                    &&& forall|k: int|
                        0 <= k < i && pattern_match(#[trigger] views[k], path@) is Some ==> {
                            &&& !rank_above(
                                match_rank(views[k], path@),
                                match_rank(views[at as int], path@),
                            )
                            &&& k < at ==> rank_above(
                                match_rank(views[at as int], path@),
                                match_rank(views[k], path@),
                            )
                        }
                },
            },
        decreases patterns@.len() - i,
    {
        let pattern = &patterns[i];
        assert(views[i as int] == pattern@);
        match pattern.try_match(path) {
            None => {},
            Some(found) => {
                let priority = pattern.priority();
                let len = found.as_bytes().len();
                let better = match best {
                    None => true,
                    Some(_) => priority > best_priority || (priority == best_priority && len
                        > best_len),
                };
                if better {
                    best = Some((i, found));
                    best_priority = priority;
                    best_len = len;
                }
            },
        }
        i += 1;
    }
    best
}

/// At most one location serves a path.
pub proof fn matched_location_is_unique(
    patterns: Seq<PatternView>,
    path: Seq<char>,
    one: Option<int>,
    other: Option<int>,
)
    requires
        is_matched_location(patterns, path, one),
        is_matched_location(patterns, path, other),
    ensures
        one == other,
{
    match (one, other) {
        (Some(a), Some(b)) => {
            let x = patterns[a];
            let y = patterns[b];
            assert(pattern_match(patterns[a], path) is Some);
            assert(pattern_match(patterns[b], path) is Some);
        },
        (Some(a), None) => {
            assert(pattern_match(patterns[a], path) is None);
        },
        (None, Some(b)) => {
            assert(pattern_match(patterns[b], path) is None);
        },
        _ => {},
    }
}

/// An exact location for the path serves it before every other kind of location.
pub proof fn exact_location_wins(patterns: Seq<PatternView>, path: Seq<char>, at: int, chosen: int)
    requires
        0 <= at < patterns.len(),
        patterns[at] == PatternView::Exact(path),
        is_matched_location(patterns, path, Some(chosen)),
    ensures
        patterns[chosen] == PatternView::Exact(path),
{
    assert(pattern_match(patterns[at], path) is Some);
    assert(match_rank(patterns[at], path) == (4nat, encode_utf8(path).len()));
}

/// A location for every path makes sure that some location serves each path.
pub proof fn common_location_serves_all(patterns: Seq<PatternView>, path: Seq<char>, at: int)
    requires
        0 <= at < patterns.len(),
        patterns[at] is Common,
    ensures
        !is_matched_location(patterns, path, None),
{
    assert(pattern_match(patterns[at], path) is Some);
}

proof fn lemma_longer_in_bytes(short: Seq<char>, long: Seq<char>)
    requires
        short.len() < long.len(),
        long.take(short.len() as int) == short,
    ensures
        encode_utf8(short).len() < encode_utf8(long).len(),
    decreases short.len(),
{
    char_is_scalar(long[0]);
    if short.len() > 0 {
        assert(short[0] == long.take(short.len() as int)[0]);
        let rest = short.drop_first();
        assert(long.drop_first().take(rest.len() as int) =~= rest);
        lemma_longer_in_bytes(rest, long.drop_first());
    }
}

/// Of two prefixes of a path, the one that begins with the other is the longer one.
proof fn lemma_prefixes(path: Seq<char>, one: Seq<char>, other: Seq<char>)
    requires
        one.len() <= path.len() && path.take(one.len() as int) == one,
        other.len() <= path.len() && path.take(other.len() as int) == other,
    ensures
        one.len() <= other.len() ==> other.take(one.len() as int) == one,
        one.len() == other.len() ==> one == other,
        one.len() < other.len() ==> encode_utf8(one).len() < encode_utf8(other).len(),
{
    if one.len() <= other.len() {
        assert(other.take(one.len() as int) =~= one) by {
            assert(path.take(other.len() as int).take(one.len() as int) =~= path.take(
                one.len() as int,
            ));
        }
        if one.len() == other.len() {
            assert(one =~= other);
        } else {
            lemma_longer_in_bytes(one, other);
        }
    }
}

/// Where a plain prefix serves a path, it is the longest one among all plain prefixes that the path
/// begins with, and the first of those that are the same.
pub proof fn longest_prefix_serves(
    patterns: Seq<PatternView>,
    path: Seq<char>,
    at: int,
    prefix: Seq<char>,
    chosen: int,
    served: Seq<char>,
)
    requires
        is_matched_location(patterns, path, Some(chosen)),
        patterns[chosen] == PatternView::NormalPrefix(served),
        0 <= at < patterns.len(),
        patterns[at] == PatternView::NormalPrefix(prefix),
        prefix.len() <= path.len(),
        path.take(prefix.len() as int) == prefix,
    ensures
        served.len() <= path.len(),
        path.take(served.len() as int) == served,
        served.len() >= prefix.len(),
        served.len() == prefix.len() ==> chosen <= at,
{
    assert(pattern_match(patterns[at], path) is Some);
    assert(pattern_match(patterns[chosen], path) is Some);
    lemma_prefixes(path, prefix, served);
    lemma_prefixes(path, served, prefix);
}

/// Where a prefix that goes before regular expressions serves a path, it is the longest one among
/// all such prefixes that the path begins with, and the first of those that are the same.
pub proof fn longest_first_prefix_serves(
    patterns: Seq<PatternView>,
    path: Seq<char>,
    at: int,
    prefix: Seq<char>,
    chosen: int,
    served: Seq<char>,
)
    requires
        is_matched_location(patterns, path, Some(chosen)),
        patterns[chosen] == PatternView::Prefix(served),
        0 <= at < patterns.len(),
        patterns[at] == PatternView::Prefix(prefix),
        prefix.len() <= path.len(),
        path.take(prefix.len() as int) == prefix,
    ensures
        served.len() <= path.len(),
        path.take(served.len() as int) == served,
        served.len() >= prefix.len(),
        served.len() == prefix.len() ==> chosen <= at,
{
    assert(pattern_match(patterns[at], path) is Some);
    assert(pattern_match(patterns[chosen], path) is Some);
    lemma_prefixes(path, prefix, served);
    lemma_prefixes(path, served, prefix);
}

/// Where a regular expression serves a path, no regular expression matches a longer part of it, and
/// none that stands before it one that is as long. Whether case is ignored makes no difference.
pub proof fn longest_expression_serves(
    patterns: Seq<PatternView>,
    path: Seq<char>,
    at: int,
    regex: Seq<char>,
    chosen: int,
    served: Seq<char>,
)
    requires
        is_matched_location(patterns, path, Some(chosen)),
        patterns[chosen] == PatternView::Regex(served) || patterns[chosen] == PatternView::CRegex(
            served,
        ),
        0 <= at < patterns.len(),
        patterns[at] == PatternView::Regex(regex) || patterns[at] == PatternView::CRegex(regex),
        regex_match(regex, path) is Some,
    ensures
        regex_match(served, path) matches Some(found) && {
            &&& encode_utf8(found).len() >= encode_utf8(regex_match(regex, path)->0).len()
            &&& at < chosen ==> encode_utf8(found).len() > encode_utf8(
                regex_match(regex, path)->0,
            ).len()
        },
{
    assert(pattern_match(patterns[at], path) is Some);
    assert(pattern_match(patterns[chosen], path) is Some);
}

/// Locations come in this order, wherever they stand: the path itself, prefixes that go before
/// regular expressions, regular expressions, plain prefixes, and the location for every path.
pub proof fn kinds_of_locations_have_an_order(
    patterns: Seq<PatternView>,
    path: Seq<char>,
    at: int,
    chosen: int,
)
    requires
        is_matched_location(patterns, path, Some(chosen)),
        0 <= at < patterns.len(),
    ensures
        0 <= chosen < patterns.len(),
        patterns[at] == PatternView::Exact(path) ==> patterns[chosen] == PatternView::Exact(path)
            && chosen <= at,
        patterns[at] matches PatternView::Prefix(text) ==> (text.len() <= path.len() && path.take(
            text.len() as int,
        ) == text ==> patterns[chosen] is Exact || patterns[chosen] is Prefix),
        patterns[at] matches PatternView::Regex(text) ==> (regex_match(text, path) is Some ==> !(
        patterns[chosen] is NormalPrefix) && !(patterns[chosen] is Common)),
        patterns[at] matches PatternView::CRegex(text) ==> (regex_match(text, path) is Some ==> !(
        patterns[chosen] is NormalPrefix) && !(patterns[chosen] is Common)),
        patterns[at] matches PatternView::NormalPrefix(text) ==> (text.len() <= path.len()
            && path.take(text.len() as int) == text ==> !(patterns[chosen] is Common)),
        patterns[at] is Common && patterns[chosen] is Common ==> chosen <= at,
{
    assert(pattern_match(patterns[at], path) is Some ==> !rank_above(
        match_rank(patterns[at], path),
        match_rank(patterns[chosen], path),
    ));
    assert(pattern_match(patterns[chosen], path) is Some);
}

/// The location that serves a path matches it: it is the path, a prefix of it, a regular expression
/// that is found in it, or stands for every path.
pub proof fn served_path_matches(patterns: Seq<PatternView>, path: Seq<char>, chosen: int)
    requires
        is_matched_location(patterns, path, Some(chosen)),
    ensures
        match patterns[chosen] {
            PatternView::Exact(text) => text == path && pattern_match(patterns[chosen], path)
                == Some(path),
            PatternView::Prefix(text) => path.take(text.len() as int) == text && text.len()
                <= path.len() && pattern_match(patterns[chosen], path) == Some(text),
            PatternView::Regex(text) => regex_match(text, path) is Some && pattern_match(
                patterns[chosen],
                path,
            ) == regex_match(text, path),
            PatternView::CRegex(text) => regex_match(text, path) is Some && pattern_match(
                patterns[chosen],
                path,
            ) == regex_match(text, path),
            PatternView::NormalPrefix(text) => path.take(text.len() as int) == text && text.len()
                <= path.len() && pattern_match(patterns[chosen], path) == Some(text),
            PatternView::Common => pattern_match(patterns[chosen], path) == Some(seq!['/']),
        },
{
    reveal_strlit("/");
    assert("/"@ =~= seq!['/']);
    assert(pattern_match(patterns[chosen], path) is Some);
}

/// No location serves a path only where none is the path, none a prefix of it, no regular expression
/// is found in it, and none stands for every path.
pub proof fn unserved_path_matches_nothing(patterns: Seq<PatternView>, path: Seq<char>, at: int)
    requires
        is_matched_location(patterns, path, None),
        0 <= at < patterns.len(),
    ensures
        match patterns[at] {
            PatternView::Exact(text) => text != path,
            PatternView::Prefix(text) => text.len() > path.len() || path.take(text.len() as int)
                != text,
            PatternView::Regex(text) => regex_match(text, path) is None,
            PatternView::CRegex(text) => regex_match(text, path) is None,
            PatternView::NormalPrefix(text) => text.len() > path.len() || path.take(
                text.len() as int,
            ) != text,
            PatternView::Common => false,
        },
{
    assert(pattern_match(patterns[at], path) is None);
}

/// How a location is written decides its kind: one word that begins with a slash, alone or with more
/// behind it, or a sign and a word.
pub proof fn location_words_have_a_meaning(
    words: Seq<Seq<char>>,
    result: Result<PatternView, ParsePatternError>,
)
    requires
        is_parsed_pattern(words, result),
    ensures
        result matches Ok(PatternView::Common) <==> words =~= seq![seq!['/']],
        forall|text: Seq<char>|
            (result matches Ok(PatternView::NormalPrefix(found)) && found == text) <==> words =~= seq![
                text,
            ] && text.len() > 1 && text[0] == '/',
        forall|text: Seq<char>|
            (result matches Ok(PatternView::Exact(found)) && found == text) <==> words =~= seq![
                seq!['='],
                text,
            ],
        forall|text: Seq<char>|
            (result matches Ok(PatternView::Prefix(found)) && found == text) <==> words =~= seq![
                seq!['^', '~'],
                text,
            ],
        result matches Ok(PatternView::Regex(found)) ==> words =~= seq![seq!['~'], found],
        result matches Ok(PatternView::CRegex(found)) ==> words.len() == 2 && words[0] =~= seq![
            '~',
            '*',
        ] && found =~= seq!['(', '?', 'i', ')'] + words[1],
        words.len() == 2 && words[0] =~= seq!['~'] && result is Err ==> regex_fault(words[1]) is Some,
        words.len() == 2 && words[0] =~= seq!['~', '*'] && result is Err ==> regex_fault(
            seq!['(', '?', 'i', ')'] + words[1],
        ) is Some,
{
    reveal_strlit("/");
    reveal_strlit("=");
    reveal_strlit("^~");
    reveal_strlit("~");
    reveal_strlit("~*");
    reveal_strlit("(?i)");
    assert("/"@ =~= seq!['/']);
    assert("="@ =~= seq!['=']);
    assert("^~"@ =~= seq!['^', '~']);
    assert("~"@ =~= seq!['~']);
    assert("~*"@ =~= seq!['~', '*']);
    assert("(?i)"@ =~= seq!['(', '?', 'i', ')']);
    assert(seq!['^', '~'].len() == 2 && seq!['~', '*'].len() == 2 && seq!['~'].len() == 1);
    assert(seq!['^', '~'][0] != seq!['~', '*'][0]);
    assert(seq!['='][0] != seq!['~'][0]);
    if words.len() == 1 {
        assert(words =~= seq![words[0]]);
        assert(words[0].len() > 0 && words[0][0] == '/' ==> words[0].take(1) =~= seq!['/']);
        assert(has_prefix(words[0], "/"@) ==> words[0].take(1)[0] == '/');
        assert(words[0].len() == 1 && words[0][0] == '/' ==> words[0] =~= seq!['/']);
    }
    if words.len() == 2 {
        assert(words =~= seq![words[0], words[1]]);
    }
}

impl DirectiveValue for Pattern {
    type Error = ParsePatternError;

    open spec fn reads(
        directive: AstDirective,
        sources: SourceMap,
        result: Result<Self, ParsePatternError>,
    ) -> bool {
        is_parsed_pattern(spanned_texts(directive.args@), pattern_result(result))
    }

    open spec fn place(directive: AstDirective) -> SourceSpan {
        directive.span
    }

    open spec fn wrapped(error: ParsePatternError) -> DirectiveError {
        DirectiveError::Pattern(error)
    }

    proof fn reads_one_way(
        directive: AstDirective,
        sources: SourceMap,
        value: Self,
        error: ParsePatternError,
    ) {
    }

    fn read(directive: &AstDirective, source_map: &SourceMap) -> (result: Result<
        Self,
        ParsePatternError,
    >) {
        parse_spanned_pattern(&directive.args)
    }

    fn place_of(directive: &AstDirective) -> (span: SourceSpan) {
        directive.span
    }

    fn wrap(error: ParsePatternError) -> (wrapped: DirectiveError) {
        DirectiveError::Pattern(error)
    }
}

} // verus!
