//! The grammar of configuration texts.
//!
//! A text is a list of directives with white space and comments around them. A directive is a
//! name and arguments, ended by a semicolon or by a block of directives in braces. Names and
//! arguments are bare words or quoted strings.
use vstd::prelude::*;
use vstd::string::*;
use vstd::utf8::*;

use crate::parse::ast::{literal_tree, trees, AstBody, AstDirective, BodyTree, DirectiveTree, Spanned};
use crate::parse::source::{SourceId, SourceSpan};
use crate::text::{chars_of, push_char, string_of_range};

verus! {

/// The text does not follow the grammar.
#[derive(Debug, Clone, Copy, PartialEq, Eq, Structural)]
pub enum ParseSyntaxError {
    /// Nothing that the grammar allows stands at `span`, the furthest place that was reached.
    Syntax { source_id: SourceId, span: SourceSpan },
}

impl ParseSyntaxError {
    pub open spec fn text(self) -> Seq<char> {
        "failed to parse configuration syntax"@
    }

    pub fn message(&self) -> (text: String)
        ensures
            text@ == self.text(),
    {
        "failed to parse configuration syntax".to_owned()
    }
}

/// The number of bytes of a character in UTF-8.
pub open spec fn width(c: char) -> nat {
    if (c as u32) < 0x80 {
        1
    } else if (c as u32) < 0x800 {
        2
    } else if (c as u32) < 0x1_0000 {
        3
    } else {
        4
    }
}

/// The number of bytes before the character with the given index.
pub open spec fn offset(s: Seq<char>, index: int) -> nat
    decreases index,
{
    if index <= 0 {
        0
    } else {
        offset(s, index - 1) + width(s[index - 1])
    }
}

/// The span of the characters from `from` up to `to`.
pub open spec fn char_span(s: Seq<char>, id: SourceId, from: int, to: int) -> SourceSpan {
    SourceSpan { source_id: id, start: offset(s, from) as usize, end: offset(s, to) as usize }
}

/// White space between words.
pub open spec fn is_space(c: char) -> bool {
    c == ' ' || c == '\t' || c == '\r' || c == '\n'
}

/// A character that a bare word cannot hold.
pub open spec fn is_special(c: char) -> bool {
    is_space(c) || c == ';' || c == '{' || c == '}' || c == '"' || c == '\'' || c == '#'
}

/// Where the comment that begins at `p` ends: behind its line feed, or at the end of the text.
pub open spec fn comment_end(s: Seq<char>, p: int) -> int
    decreases s.len() - p,
{
    if p >= s.len() {
        p
    } else if s[p] == '\n' {
        p + 1
    } else {
        comment_end(s, p + 1)
    }
}

/// Where the white space and the comments that begin at `p` end.
pub open spec fn spacing_end(s: Seq<char>, p: int) -> int
    decreases s.len() - p,
{
    if 0 <= p < s.len() && is_space(s[p]) {
        spacing_end(s, p + 1)
    } else if 0 <= p < s.len() && s[p] == '#' {
        proof {
            lemma_comment_end(s, p + 1);
        }
        spacing_end(s, comment_end(s, p + 1))
    } else {
        p
    }
}

/// Where the bare word that begins at `p` ends.
pub open spec fn bare_end(s: Seq<char>, p: int) -> int
    decreases s.len() - p,
{
    if 0 <= p < s.len() && !is_special(s[p]) {
        bare_end(s, p + 1)
    } else {
        p
    }
}

/// Whether a backslash takes the character behind it literally.
pub open spec fn is_escapable(c: char, quote: char) -> bool {
    c == quote || c == '\\' || c == '\n'
}

/// Whether an escape sequence stands at `p`.
pub open spec fn escape_at(s: Seq<char>, p: int, quote: char) -> bool {
    0 <= p && p + 1 < s.len() && s[p] == '\\' && is_escapable(s[p + 1], quote)
}

/// Where the closing quote of a quoted string stands whose content begins at `p`.
pub open spec fn quoted_end(s: Seq<char>, p: int, quote: char) -> Option<int>
    decreases s.len() - p,
{
    if p >= s.len() {
        None
    } else if escape_at(s, p, quote) {
        quoted_end(s, p + 2, quote)
    } else if s[p] == quote {
        Some(p)
    } else {
        quoted_end(s, p + 1, quote)
    }
}

/// The content of a quoted string: an escape sequence stands for its second character.
pub open spec fn unquoted(raw: Seq<char>, quote: char) -> Seq<char>
    decreases raw.len(),
{
    if raw.len() == 0 {
        seq![]
    } else if escape_at(raw, 0, quote) {
        seq![raw[1]] + unquoted(raw.skip(2), quote)
    } else {
        seq![raw[0]] + unquoted(raw.skip(1), quote)
    }
}

/// A text as it is written inside quotes: a backslash stands before each quote and each backslash.
pub open spec fn quoted(text: Seq<char>, quote: char) -> Seq<char>
    decreases text.len(),
{
    if text.len() == 0 {
        seq![]
    } else if text[0] == quote || text[0] == '\\' {
        seq!['\\', text[0]] + quoted(text.skip(1), quote)
    } else {
        seq![text[0]] + quoted(text.skip(1), quote)
    }
}

/// What was read and the place behind it, or the place where reading failed.
pub type Read<T> = Result<(T, int), int>;

/// The word or quoted string at `p`.
pub open spec fn literal_at(s: Seq<char>, id: SourceId, p: int) -> Read<Spanned<Seq<char>>> {
    if 0 <= p < s.len() && (s[p] == '"' || s[p] == '\'') {
        match quoted_end(s, p + 1, s[p]) {
            Some(e) => Ok(
                (
                    Spanned {
                        value: unquoted(s.subrange(p + 1, e), s[p]),
                        span: char_span(s, id, p, e + 1),
                    },
                    e + 1,
                ),
            ),
            None => Err(s.len() as int),
        }
    } else {
        let e = bare_end(s, p);
        if e > p {
            Ok((Spanned { value: s.subrange(p, e), span: char_span(s, id, p, e) }, e))
        } else {
            Err(p)
        }
    }
}

/// A list, the place where it ends, and the place where the attempt to read one more failed.
pub struct List<T> {
    pub items: Seq<T>,
    pub end: int,
    pub failed: int,
}

/// The arguments that follow the name that ends at `p`, each behind some spacing.
pub open spec fn args_at(s: Seq<char>, id: SourceId, p: int) -> List<Spanned<Seq<char>>>
    decreases s.len() - p,
{
    proof {
        lemma_spacing_end(s, p);
        lemma_literal_at(s, id, spacing_end(s, p));
    }
    let q = spacing_end(s, p);
    if p < 0 || q <= p {
        List { items: seq![], end: p, failed: p }
    } else {
        match literal_at(s, id, q) {
            Err(failed) => List { items: seq![], end: p, failed },
            Ok((arg, e)) => {
                let rest = args_at(s, id, e);
                List { items: seq![arg] + rest.items, end: rest.end, failed: rest.failed }
            },
        }
    }
}

/// The larger of two places.
pub open spec fn further(one: int, other: int) -> int {
    if one >= other {
        one
    } else {
        other
    }
}

/// The directive at `p`, with the spacing behind it.
pub open spec fn directive_at(s: Seq<char>, id: SourceId, p: int) -> Read<DirectiveTree>
    decreases s.len() - p, 1int,
{
    proof {
        lemma_literal_at(s, id, p);
    }
    match literal_at(s, id, p) {
        Err(failed) => Err(failed),
        Ok((name, e)) => {
            proof {
                lemma_args_at(s, id, e);
                lemma_spacing_end(s, args_at(s, id, e).end);
            }
            let args = args_at(s, id, e);
            match body_at(s, id, spacing_end(s, args.end)) {
                Err(failed) => Err(further(args.failed, failed)),
                Ok((body, end)) => Ok(
                    (
                        DirectiveTree {
                            name,
                            args: args.items,
                            body,
                            span: char_span(s, id, p, end),
                        },
                        spacing_end(s, end),
                    ),
                ),
            }
        },
    }
}

/// The semicolon or the block at `p`.
pub open spec fn body_at(s: Seq<char>, id: SourceId, p: int) -> Read<BodyTree>
    decreases s.len() - p, 0int,
{
    if 0 <= p < s.len() && s[p] == ';' {
        Ok((BodyTree::Leaf { semicolon: char_span(s, id, p, p + 1) }, p + 1))
    } else if 0 <= p < s.len() && s[p] == '{' {
        proof {
            lemma_spacing_end(s, p + 1);
        }
        let children = directives_at(s, id, spacing_end(s, p + 1));
        let close = spacing_end(s, children.end);
        if 0 <= close < s.len() && s[close] == '}' {
            Ok(
                (
                    BodyTree::Block {
                        open: char_span(s, id, p, p + 1),
                        children: children.items,
                        close: char_span(s, id, close, close + 1),
                    },
                    close + 1,
                ),
            )
        } else {
            Err(further(children.failed, close))
        }
    } else {
        Err(p)
    }
}

/// The directives from `p` on.
pub open spec fn directives_at(s: Seq<char>, id: SourceId, p: int) -> List<DirectiveTree>
    decreases s.len() - p, 2int,
{
    match directive_at(s, id, p) {
        Err(failed) => List { items: seq![], end: p, failed },
        Ok((directive, e)) => if p < e <= s.len() {
            let rest = directives_at(s, id, e);
            List { items: seq![directive] + rest.items, end: rest.end, failed: rest.failed }
        } else {
            List { items: seq![], end: p, failed: p }
        },
    }
}

/// The directives of a whole text, or the furthest place that was reached.
pub open spec fn file_trees(s: Seq<char>, id: SourceId) -> Result<Seq<DirectiveTree>, int> {
    let list = directives_at(s, id, spacing_end(s, 0));
    let end = spacing_end(s, list.end);
    if end == s.len() {
        Ok(list.items)
    } else {
        Err(further(list.failed, end))
    }
}

/// A comment ends inside the text.
pub proof fn lemma_comment_end(s: Seq<char>, p: int)
    requires
        p <= s.len(),
    ensures
        p <= comment_end(s, p) <= s.len(),
    decreases s.len() - p,
{
    if p < s.len() && s[p] != '\n' {
        lemma_comment_end(s, p + 1);
    }
}

/// Spacing ends at or behind its start, inside the text.
pub proof fn lemma_spacing_end(s: Seq<char>, p: int)
    ensures
        p <= spacing_end(s, p),
        p <= s.len() ==> spacing_end(s, p) <= s.len(),
    decreases s.len() - p,
{
    if 0 <= p < s.len() && is_space(s[p]) {
        lemma_spacing_end(s, p + 1);
    } else if 0 <= p < s.len() && s[p] == '#' {
        lemma_comment_end(s, p + 1);
        lemma_spacing_end(s, comment_end(s, p + 1));
    }
}

proof fn lemma_bare_end(s: Seq<char>, p: int)
    ensures
        p <= bare_end(s, p),
        p <= s.len() ==> bare_end(s, p) <= s.len(),
    decreases s.len() - p,
{
    if 0 <= p < s.len() && !is_special(s[p]) {
        lemma_bare_end(s, p + 1);
    }
}

proof fn lemma_quoted_end(s: Seq<char>, p: int, quote: char)
    ensures
        quoted_end(s, p, quote) matches Some(e) ==> p <= e < s.len() && s[e] == quote,
    decreases s.len() - p,
{
    if p < s.len() {
        if escape_at(s, p, quote) {
            lemma_quoted_end(s, p + 2, quote);
        } else if s[p] != quote {
            lemma_quoted_end(s, p + 1, quote);
        }
    }
}

/// A word or string has at least one character and ends inside the text.
pub proof fn lemma_literal_at(s: Seq<char>, id: SourceId, p: int)
    ensures
        literal_at(s, id, p) matches Ok((_, e)) ==> p < e,
        literal_at(s, id, p) matches Ok((_, e)) ==> 0 <= p && e <= s.len(),
        p <= s.len() ==> (literal_at(s, id, p) matches Err(failed) ==> p <= failed <= s.len()),
{
    lemma_bare_end(s, p);
    if 0 <= p < s.len() {
        lemma_quoted_end(s, p + 1, s[p]);
    }
}

/// Arguments end at or behind their start, inside the text.
pub proof fn lemma_args_at(s: Seq<char>, id: SourceId, p: int)
    ensures
        p <= args_at(s, id, p).end,
        p <= s.len() ==> args_at(s, id, p).end <= s.len(),
        p <= s.len() ==> p <= args_at(s, id, p).failed <= s.len(),
    decreases s.len() - p,
{
    lemma_spacing_end(s, p);
    let q = spacing_end(s, p);
    if p >= 0 && q > p {
        lemma_literal_at(s, id, q);
        if let Ok((_, e)) = literal_at(s, id, q) {
            lemma_args_at(s, id, e);
        }
    }
}

/// Reading goes on inside the text.
pub proof fn lemma_directive_at(s: Seq<char>, id: SourceId, p: int)
    requires
        0 <= p <= s.len(),
    ensures
        directive_at(s, id, p) matches Ok((_, e)) ==> p < e <= s.len(),
        directive_at(s, id, p) matches Err(failed) ==> p <= failed <= s.len(),
    decreases s.len() - p, 1int,
{
    lemma_literal_at(s, id, p);
    if let Ok((_, e)) = literal_at(s, id, p) {
        lemma_args_at(s, id, e);
        let args = args_at(s, id, e);
        lemma_spacing_end(s, args.end);
        lemma_body_at(s, id, spacing_end(s, args.end));
        if let Ok((_, end)) = body_at(s, id, spacing_end(s, args.end)) {
            lemma_spacing_end(s, end);
        }
    }
}

proof fn lemma_body_at(s: Seq<char>, id: SourceId, p: int)
    requires
        0 <= p <= s.len(),
    ensures
        body_at(s, id, p) matches Ok((_, e)) ==> p < e <= s.len(),
        body_at(s, id, p) matches Err(failed) ==> p <= failed <= s.len(),
    decreases s.len() - p, 0int,
{
    if p < s.len() && s[p] == '{' {
        lemma_spacing_end(s, p + 1);
        lemma_directives_at(s, id, spacing_end(s, p + 1));
        lemma_spacing_end(s, directives_at(s, id, spacing_end(s, p + 1)).end);
    }
}

/// Reading goes on inside the text.
pub proof fn lemma_directives_at(s: Seq<char>, id: SourceId, p: int)
    requires
        0 <= p <= s.len(),
    ensures
        p <= directives_at(s, id, p).end <= s.len(),
        p <= directives_at(s, id, p).failed <= s.len(),
    decreases s.len() - p, 2int,
{
    lemma_directive_at(s, id, p);
    if let Ok((_, e)) = directive_at(s, id, p) {
        lemma_directives_at(s, id, e);
    }
}

proof fn lemma_width(c: char)
    ensures
        encode_scalar(c as u32).len() == width(c),
{
    char_is_scalar(c);
}

proof fn lemma_offset_take(s: Seq<char>, t: Seq<char>, index: int)
    requires
        0 <= index <= s.len(),
        index <= t.len(),
        forall|k: int| 0 <= k < index ==> s[k] == t[k],
    ensures
        offset(s, index) == offset(t, index),
    decreases index,
{
    if index > 0 {
        lemma_offset_take(s, t, index - 1);
    }
}

proof fn lemma_offset_first(s: Seq<char>, index: int)
    requires
        0 < index <= s.len(),
    ensures
        offset(s, index) == width(s[0]) + offset(s.skip(1), index - 1),
    decreases index,
{
    if index > 1 {
        lemma_offset_first(s, index - 1);
    } else {
        assert(offset(s, 0) == 0);
        assert(offset(s.skip(1), 0) == 0);
    }
}

proof fn lemma_offset_total(s: Seq<char>)
    ensures
        offset(s, s.len() as int) == encode_utf8(s).len(),
    decreases s.len(),
{
    if s.len() > 0 {
        lemma_offset_first(s, s.len() as int);
        lemma_offset_total(s.skip(1));
        lemma_width(s[0]);
        assert(s.drop_first() =~= s.skip(1));
    }
}

proof fn lemma_offset_monotone(s: Seq<char>, i: int, j: int)
    requires
        i <= j,
    ensures
        offset(s, i) <= offset(s, j),
    decreases j,
{
    if i < j && j > 0 {
        lemma_offset_monotone(s, i, j - 1);
    }
}

/// The offset of a character is the length of the text before it in UTF-8.
pub proof fn offset_counts_bytes(s: Seq<char>, index: int)
    requires
        0 <= index <= s.len(),
    ensures
        offset(s, index) == encode_utf8(s.take(index)).len(),
{
    lemma_offset_take(s, s.take(index), index);
    lemma_offset_total(s.take(index));
}

/// A text under the reader: its characters and their byte offsets.
struct Reader {
    chars: Vec<char>,
    offsets: Vec<usize>,
    id: SourceId,
}

impl Reader {
    spec fn wf(self) -> bool {
        &&& self.offsets@.len() == self.chars@.len() + 1
        &&& self.offsets@.len() <= usize::MAX
        &&& forall|i: int|
            0 <= i < self.offsets@.len() ==> #[trigger] self.offsets@[i] == offset(self.chars@, i)
    }

    fn new(input: &str, id: SourceId) -> (reader: Reader)
        ensures
            reader.wf(),
            reader.chars@ == input@,
            reader.id == id,
    {
        let total = input.as_bytes().len();
        let chars = chars_of(input);
        let mut offsets: Vec<usize> = Vec::new();
        offsets.push(0);
        let mut i: usize = 0;
        proof {
            lemma_offset_total(chars@);
        }
        while i < chars.len()
            invariant
                i <= chars@.len(),
                total == offset(chars@, chars@.len() as int),
                offsets@.len() == i + 1,
                forall|k: int| 0 <= k <= i ==> #[trigger] offsets@[k] == offset(chars@, k),
            decreases chars@.len() - i,
        {
            let code: u32 = chars[i] as u32;
            let size: usize = if code < 0x80 {
                1
            } else if code < 0x800 {
                2
            } else if code < 0x1_0000 {
                3
            } else {
                4
            };
            proof {
                lemma_offset_monotone(chars@, i + 1, chars@.len() as int);
            }
            let next: usize = offsets[i] + size;
            offsets.push(next);
            i += 1;
        }
        let count = offsets.len();
        assert(count == offsets@.len());
        Reader { chars, offsets, id }
    }

    /// The span of the characters from `from` up to `to`.
    fn span(&self, from: usize, to: usize) -> (span: SourceSpan)
        requires
            self.wf(),
            from <= self.chars@.len(),
            to <= self.chars@.len(),
        ensures
            span == char_span(self.chars@, self.id, from as int, to as int),
    {
        SourceSpan::new(self.id, self.offsets[from], self.offsets[to])
    }

    /// Whether `c` stands at `p`.
    fn at(&self, p: usize, c: char) -> (yes: bool)
        ensures
            yes == (p < self.chars@.len() && self.chars@[p as int] == c),
    {
        p < self.chars.len() && self.chars[p] == c
    }

    fn skip_comment(&self, p: usize) -> (end: usize)
        requires
            p <= self.chars@.len(),
        ensures
            end == comment_end(self.chars@, p as int),
            p <= end <= self.chars@.len(),
    {
        let mut i: usize = p;
        while i < self.chars.len()
            invariant
                p <= i <= self.chars@.len(),
                comment_end(self.chars@, p as int) == comment_end(self.chars@, i as int),
            decreases self.chars@.len() - i,
        {
            if self.chars[i] == '\n' {
                return i + 1;
            }
            i += 1;
        }
        i
    }

    fn skip_spacing(&self, p: usize) -> (end: usize)
        requires
            p <= self.chars@.len(),
        ensures
            end == spacing_end(self.chars@, p as int),
            p <= end <= self.chars@.len(),
    {
        let mut i: usize = p;
        while i < self.chars.len()
            invariant
                p <= i <= self.chars@.len(),
                spacing_end(self.chars@, p as int) == spacing_end(self.chars@, i as int),
            decreases self.chars@.len() - i,
        {
            let c = self.chars[i];
            if c == ' ' || c == '\t' || c == '\r' || c == '\n' {
                i += 1;
            } else if c == '#' {
                i = self.skip_comment(i + 1);
            } else {
                return i;
            }
        }
        i
    }

    fn skip_bare(&self, p: usize) -> (end: usize)
        requires
            p <= self.chars@.len(),
        ensures
            end == bare_end(self.chars@, p as int),
            p <= end <= self.chars@.len(),
    {
        let mut i: usize = p;
        while i < self.chars.len()
            invariant
                p <= i <= self.chars@.len(),
                bare_end(self.chars@, p as int) == bare_end(self.chars@, i as int),
            decreases self.chars@.len() - i,
        {
            let c = self.chars[i];
            if c == ' ' || c == '\t' || c == '\r' || c == '\n' || c == ';' || c == '{' || c == '}'
                || c == '"' || c == '\'' || c == '#' {
                return i;
            }
            i += 1;
        }
        i
    }

    fn find_quote(&self, p: usize, quote: char) -> (end: Option<usize>)
        requires
            p <= self.chars@.len(),
        ensures
            match end {
                Some(e) => quoted_end(self.chars@, p as int, quote) == Some(e as int) && p <= e
                    < self.chars@.len(),
                None => quoted_end(self.chars@, p as int, quote) is None,
            },
    {
        let mut i: usize = p;
        while i < self.chars.len()
            invariant
                p <= i <= self.chars@.len(),
                quoted_end(self.chars@, p as int, quote) == quoted_end(
                    self.chars@,
                    i as int,
                    quote,
                ),
            decreases self.chars@.len() - i,
        {
            let c = self.chars[i];
            if c == '\\' && self.chars.len() - i > 1 && (self.chars[i + 1] == quote
                || self.chars[i + 1] == '\\' || self.chars[i + 1] == '\n') {
                i += 2;
            } else if c == quote {
                return Some(i);
            } else {
                i += 1;
            }
        }
        None
    }

    fn literal(&self, p: usize) -> (result: Result<(Spanned<String>, usize), usize>)
        requires
            self.wf(),
            p <= self.chars@.len(),
        ensures
            match result {
                Ok((literal, e)) => literal_at(self.chars@, self.id, p as int) == Ok::<_, int>(
                    (literal_tree(literal), e as int),
                ) && p < e <= self.chars@.len(),
                Err(failed) => literal_at(self.chars@, self.id, p as int) == Err::<
                    (Spanned<Seq<char>>, int),
                    int,
                >(failed as int) && failed <= self.chars@.len(),
            },
    {
        if self.at(p, '"') || self.at(p, '\'') {
            let quote = self.chars[p];
            match self.find_quote(p + 1, quote) {
                Some(e) => {
                    let raw = string_of_range(&self.chars, p + 1, e);
                    let value = decode_quoted(raw.as_str(), quote);
                    Ok((Spanned::new(value, self.span(p, e + 1)), e + 1))
                },
                None => Err(self.chars.len()),
            }
        } else {
            let e = self.skip_bare(p);
            if e > p {
                Ok((Spanned::new(string_of_range(&self.chars, p, e), self.span(p, e)), e))
            } else {
                Err(p)
            }
        }
    }

    fn args(&self, p: usize) -> (result: (Vec<Spanned<String>>, usize, usize))
        requires
            self.wf(),
            p <= self.chars@.len(),
        ensures
            args_at(self.chars@, self.id, p as int) == (List {
                items: result.0@.map_values(|arg: Spanned<String>| literal_tree(arg)),
                end: result.1 as int,
                failed: result.2 as int,
            }),
            p <= result.1 <= self.chars@.len(),
            result.2 <= self.chars@.len(),
    {
        let ghost s = self.chars@;
        let ghost view = |arg: Spanned<String>| literal_tree(arg);
        let mut list: Vec<Spanned<String>> = Vec::new();
        let mut at: usize = p;
        assert(list@.map_values(view) =~= seq![]);
        assert(args_at(s, self.id, p as int).items =~= seq![] + args_at(s, self.id, p as int).items);
        loop
            invariant
                self.wf(),
                s == self.chars@,
                view == (|arg: Spanned<String>| literal_tree(arg)),
                p <= at <= s.len(),
                args_at(s, self.id, p as int).items == list@.map_values(view) + args_at(
                    s,
                    self.id,
                    at as int,
                ).items,
                args_at(s, self.id, p as int).end == args_at(s, self.id, at as int).end,
                args_at(s, self.id, p as int).failed == args_at(s, self.id, at as int).failed,
            decreases s.len() - at,
        {
            let next = self.skip_spacing(at);
            if next == at {
                assert(args_at(s, self.id, at as int).items =~= seq![]);
                assert(args_at(s, self.id, p as int).items =~= list@.map_values(view));
                return (list, at, at);
            }
            match self.literal(next) {
                Err(failed) => {
                    assert(args_at(s, self.id, at as int).items =~= seq![]);
                    assert(args_at(s, self.id, p as int).items =~= list@.map_values(view));
                    return (list, at, failed);
                },
                Ok((arg, e)) => {
                    let ghost before = list@;
                    let ghost rest = args_at(s, self.id, e as int).items;
                    list.push(arg);
                    assert(list@.map_values(view) =~= before.map_values(view).push(view(arg)));
                    assert(before.map_values(view) + (seq![view(arg)] + rest) =~= list@.map_values(
                        view,
                    ) + rest);
                    at = e;
                },
            }
        }
    }

    fn directive(&self, p: usize) -> (result: Result<(AstDirective, usize), usize>)
        requires
            self.wf(),
            p <= self.chars@.len(),
        ensures
            match result {
                Ok((directive, e)) => directive_at(self.chars@, self.id, p as int) == Ok::<_, int>(
                    (directive.tree(), e as int),
                ) && p < e <= self.chars@.len(),
                Err(failed) => directive_at(self.chars@, self.id, p as int) == Err::<
                    (DirectiveTree, int),
                    int,
                >(failed as int) && failed <= self.chars@.len(),
            },
        decreases self.chars@.len() - p, 1int,
    {
        let (name, e) = match self.literal(p) {
            Ok(read) => read,
            Err(failed) => {
                return Err(failed);
            },
        };
        let (args, args_end, args_failed) = self.args(e);
        let start = self.skip_spacing(args_end);
        match self.body(start) {
            Err(failed) => Err(
                if args_failed >= failed {
                    args_failed
                } else {
                    failed
                },
            ),
            Ok((body, end)) => {
                let directive = AstDirective { name, args, body, span: self.span(p, end) };
                Ok((directive, self.skip_spacing(end)))
            },
        }
    }

    fn body(&self, p: usize) -> (result: Result<(AstBody, usize), usize>)
        requires
            self.wf(),
            p <= self.chars@.len(),
        ensures
            match result {
                Ok((body, e)) => body_at(self.chars@, self.id, p as int) == Ok::<_, int>(
                    (body.tree(), e as int),
                ) && p < e <= self.chars@.len(),
                Err(failed) => body_at(self.chars@, self.id, p as int) == Err::<
                    (BodyTree, int),
                    int,
                >(failed as int) && failed <= self.chars@.len(),
            },
        decreases self.chars@.len() - p, 0int,
    {
        if self.at(p, ';') {
            return Ok((AstBody::Leaf { semicolon: self.span(p, p + 1) }, p + 1));
        }
        if !self.at(p, '{') {
            return Err(p);
        }
        let start = self.skip_spacing(p + 1);
        let (children, children_end, failed) = self.directives(start);
        let close = self.skip_spacing(children_end);
        if self.at(close, '}') {
            let body = AstBody::Block {
                open: self.span(p, p + 1),
                children,
                close: self.span(close, close + 1),
            };
            proof {
                lemma_block_tree(
                    body,
                    char_span(self.chars@, self.id, p as int, p + 1),
                    children@,
                    char_span(self.chars@, self.id, close as int, close + 1),
                );
            }
            Ok((body, close + 1))
        } else if failed >= close {
            Err(failed)
        } else {
            Err(close)
        }
    }

    fn directives(&self, p: usize) -> (result: (Vec<AstDirective>, usize, usize))
        requires
            self.wf(),
            p <= self.chars@.len(),
        ensures
            directives_at(self.chars@, self.id, p as int) == (List {
                items: trees(result.0@),
                end: result.1 as int,
                failed: result.2 as int,
            }),
            p <= result.1 <= self.chars@.len(),
            result.2 <= self.chars@.len(),
        decreases self.chars@.len() - p, 2int,
    {
        let ghost s = self.chars@;
        let mut list: Vec<AstDirective> = Vec::new();
        let mut at: usize = p;
        assert(trees(list@) =~= seq![]);
        assert(directives_at(s, self.id, p as int).items =~= seq![] + directives_at(
            s,
            self.id,
            p as int,
        ).items);
        loop
            invariant
                self.wf(),
                s == self.chars@,
                p <= at <= s.len(),
                directives_at(s, self.id, p as int).items == trees(list@) + directives_at(
                    s,
                    self.id,
                    at as int,
                ).items,
                directives_at(s, self.id, p as int).end == directives_at(s, self.id, at as int).end,
                directives_at(s, self.id, p as int).failed == directives_at(
                    s,
                    self.id,
                    at as int,
                ).failed,
            decreases s.len() - at,
        {
            match self.directive(at) {
                Err(failed) => {
                    assert(directives_at(s, self.id, at as int).items =~= seq![]);
                    assert(directives_at(s, self.id, p as int).items =~= trees(list@));
                    return (list, at, failed);
                },
                Ok((directive, e)) => {
                    let ghost before = list@;
                    let ghost rest = directives_at(s, self.id, e as int).items;
                    list.push(directive);
                    assert(trees(list@) =~= trees(before).push(directive.tree()));
                    assert(trees(before) + (seq![directive.tree()] + rest) =~= trees(list@) + rest);
                    at = e;
                },
            }
        }
    }
}

proof fn lemma_block_tree(
    body: AstBody,
    open: SourceSpan,
    children: Seq<AstDirective>,
    close: SourceSpan,
)
    requires
        body matches AstBody::Block { open: o, children: c, close: z } && o == open && c@ == children
            && z == close,
    ensures
        body.tree() == (BodyTree::Block { open, children: trees(children), close }),
{
    assert(body.tree()->children =~= trees(children));
}

proof fn lemma_quoted_closes(before: Seq<char>, text: Seq<char>, quote: char)
    requires
        quote != '\\',
    ensures
        quoted_end(before + quoted(text, quote) + seq![quote], before.len() as int, quote) == Some(
            (before.len() + quoted(text, quote).len()) as int,
        ),
    decreases text.len(),
{
    let whole = before + quoted(text, quote) + seq![quote];
    let p = before.len() as int;
    if text.len() > 0 {
        let rest = quoted(text.skip(1), quote);
        if text[0] == quote || text[0] == '\\' {
            let first = before + seq!['\\', text[0]];
            assert(whole =~= first + rest + seq![quote]);
            assert(whole[p] == '\\' && whole[p + 1] == text[0]);
            lemma_quoted_closes(first, text.skip(1), quote);
        } else {
            let first = before + seq![text[0]];
            assert(whole =~= first + rest + seq![quote]);
            assert(whole[p] == text[0]);
            lemma_quoted_closes(first, text.skip(1), quote);
        }
    } else {
        assert(whole[p] == quote);
    }
}

proof fn lemma_quoted_decodes(text: Seq<char>, quote: char)
    ensures
        unquoted(quoted(text, quote), quote) == text,
    decreases text.len(),
{
    if text.len() > 0 {
        let raw = quoted(text, quote);
        let rest = quoted(text.skip(1), quote);
        lemma_quoted_decodes(text.skip(1), quote);
        if text[0] == quote || text[0] == '\\' {
            assert(raw[0] == '\\' && raw[1] == text[0]);
            assert(raw.skip(2) =~= rest);
        } else {
            assert(raw[0] == text[0]);
            assert(raw.skip(1) =~= rest);
        }
        assert(seq![text[0]] + text.skip(1) =~= text);
    } else {
        assert(text =~= seq![]);
    }
}

/// A text that is written in quotes, with a backslash before each quote and each backslash in it,
/// reads back as it was.
pub proof fn quoted_text_reads_back(text: Seq<char>, quote: char, id: SourceId)
    requires
        quote == '"' || quote == '\'',
    ensures
        unquoted(quoted(text, quote), quote) == text,
        ({
            let written = seq![quote] + quoted(text, quote) + seq![quote];
            literal_at(written, id, 0) matches Ok((word, end)) && word.value == text && end
                == written.len()
        }),
{
    lemma_quoted_decodes(text, quote);
    lemma_quoted_closes(seq![quote], text, quote);
    let written = seq![quote] + quoted(text, quote) + seq![quote];
    let end = 1 + quoted(text, quote).len() as int;
    assert(written.subrange(1, end) =~= quoted(text, quote));
}

/// Decodes the content of a quoted string. A text that was written with a backslash before each quote
/// and each backslash comes back as it was.
pub fn decode_quoted(raw: &str, quote: char) -> (decoded: String)
    ensures
        decoded@ == unquoted(raw@, quote),
        forall|text: Seq<char>| #[trigger] quoted(text, quote) == raw@ ==> decoded@ == text,
{
    let chars = chars_of(raw);
    let mut decoded = String::new();
    let mut i: usize = 0;
    assert(raw@.skip(0) =~= raw@);
    assert(decoded@ + unquoted(raw@, quote) =~= unquoted(raw@, quote));
    while i < chars.len()
        invariant
            i <= chars@.len(),
            chars@ == raw@,
            unquoted(raw@, quote) == decoded@ + unquoted(raw@.skip(i as int), quote),
        decreases chars@.len() - i,
    {
        let ghost rest = raw@.skip(i as int);
        let ghost before = decoded@;
        let c = chars[i];
        assert(rest[0] == c);
        if c == '\\' && chars.len() - i > 1 && (chars[i + 1] == quote || chars[i + 1] == '\\'
            || chars[i + 1] == '\n') {
            assert(rest[1] == chars@[i + 1]);
            push_char(&mut decoded, chars[i + 1]);
            assert(rest.skip(2) =~= raw@.skip(i + 2));
            assert(before + (seq![rest[1]] + unquoted(rest.skip(2), quote)) =~= decoded@
                + unquoted(rest.skip(2), quote));
            i += 2;
        } else {
            assert(chars@.len() - i > 1 ==> rest[1] == chars@[i + 1]);
            push_char(&mut decoded, c);
            assert(rest.skip(1) =~= raw@.skip(i + 1));
            assert(before + (seq![rest[0]] + unquoted(rest.skip(1), quote)) =~= decoded@
                + unquoted(rest.skip(1), quote));
            i += 1;
        }
    }
    proof {
        assert(raw@.skip(i as int) =~= seq![]);
        assert(decoded@ + Seq::<char>::empty() =~= decoded@);
        assert forall|text: Seq<char>| #[trigger] quoted(text, quote) == raw@ implies decoded@
            == text by {
            lemma_quoted_decodes(text, quote);
        }
    }
    decoded
}

/// Reads a whole text.
pub fn parse_source(input: &str, source_id: SourceId) -> (result: Result<
    Vec<AstDirective>,
    ParseSyntaxError,
>)
    ensures
        match result {
            Ok(directives) => file_trees(input@, source_id) == Ok::<Seq<DirectiveTree>, int>(
                trees(directives@),
            ),
            Err(ParseSyntaxError::Syntax { source_id: id, span }) => id == source_id && (file_trees(
                input@,
                source_id,
            ) matches Err(failed) && span == char_span(input@, source_id, failed, failed)),
        },
{
    let reader = Reader::new(input, source_id);
    let start = reader.skip_spacing(0);
    let (directives, list_end, failed) = reader.directives(start);
    let end = reader.skip_spacing(list_end);
    if end == reader.chars.len() {
        Ok(directives)
    } else {
        let reached: usize = if failed >= end {
            failed
        } else {
            end
        };
        Err(ParseSyntaxError::Syntax { source_id, span: reader.span(reached, reached) })
    }
}

/// Where the semicolon or the opening brace of a directive stands.
pub open spec fn body_start(body: BodyTree) -> SourceSpan {
    match body {
        BodyTree::Leaf { semicolon } => semicolon,
        BodyTree::Block { open, .. } => open,
    }
}

/// Where the semicolon or the closing brace of a directive stands.
pub open spec fn body_stop(body: BodyTree) -> SourceSpan {
    match body {
        BodyTree::Leaf { semicolon } => semicolon,
        BodyTree::Block { close, .. } => close,
    }
}

/// Whether a span lies in a text between two bytes.
pub open spec fn lies_in(span: SourceSpan, id: SourceId, from: usize, to: usize) -> bool {
    span.source_id == id && from <= span.start && span.start <= span.end && span.end <= to
}

/// Whether words lie between two bytes of a text, one behind the other.
pub open spec fn words_in_order(
    words: Seq<Spanned<Seq<char>>>,
    id: SourceId,
    from: usize,
    to: usize,
) -> bool {
    &&& forall|i: int| 0 <= i < words.len() ==> lies_in((#[trigger] words[i]).span, id, from, to)
    &&& forall|i: int, j: int|
        0 <= i < j < words.len() ==> (#[trigger] words[i]).span.end <= (#[trigger] words[j]).span.start
}

/// Whether directives lie between two bytes of a text, one behind the other.
pub open spec fn directives_in_order(
    list: Seq<DirectiveTree>,
    id: SourceId,
    from: usize,
    to: usize,
) -> bool {
    &&& forall|i: int| 0 <= i < list.len() ==> lies_in((#[trigger] list[i]).span, id, from, to)
    &&& forall|i: int, j: int|
        0 <= i < j < list.len() ==> (#[trigger] list[i]).span.end <= (#[trigger] list[j]).span.start
}

/// Whether the parts of a directive lie in it, in the order in which they are written: its name,
/// its arguments, and the semicolon or the block that ends it, with the directives of the block
/// between the braces.
pub open spec fn nests(tree: DirectiveTree, id: SourceId) -> bool
    decreases tree,
{
    &&& tree.span.source_id == id
    &&& lies_in(tree.name.span, id, tree.span.start, body_start(tree.body).start)
    &&& tree.name.span.start == tree.span.start
    &&& words_in_order(tree.args, id, tree.name.span.end, body_start(tree.body).start)
    &&& lies_in(body_start(tree.body), id, tree.name.span.end, tree.span.end)
    &&& body_stop(tree.body).source_id == id
    &&& body_stop(tree.body).end == tree.span.end
    &&& match tree.body {
        BodyTree::Leaf { .. } => true,
        BodyTree::Block { open, children, close } => {
            &&& open.end <= close.start <= close.end
            &&& directives_in_order(children, id, open.end, close.start)
            &&& forall|i: int| 0 <= i < children.len() ==> nests(#[trigger] children[i], id)
        },
    }
}

/// Whether the bytes of a text can be counted.
spec fn countable(s: Seq<char>) -> bool {
    offset(s, s.len() as int) <= usize::MAX
}

proof fn lemma_char_span(s: Seq<char>, id: SourceId, from: int, to: int)
    requires
        countable(s),
        from <= to <= s.len(),
    ensures
        char_span(s, id, from, to).start == offset(s, from),
        char_span(s, id, from, to).end == offset(s, to),
        offset(s, from) <= offset(s, to) <= usize::MAX,
{
    lemma_offset_monotone(s, from, to);
    lemma_offset_monotone(s, to, s.len() as int);
}

proof fn lemma_words_in_order(s: Seq<char>, id: SourceId, p: int)
    requires
        countable(s),
        0 <= p <= s.len(),
    ensures
        p <= args_at(s, id, p).end <= s.len(),
        words_in_order(
            args_at(s, id, p).items,
            id,
            offset(s, p) as usize,
            offset(s, args_at(s, id, p).end) as usize,
        ),
    decreases s.len() - p,
{
    let list = args_at(s, id, p);
    lemma_args_at(s, id, p);
    lemma_spacing_end(s, p);
    let q = spacing_end(s, p);
    if q > p {
        lemma_literal_at(s, id, q);
        if let Ok((word, e)) = literal_at(s, id, q) {
            lemma_words_in_order(s, id, e);
            let rest = args_at(s, id, e);
            lemma_char_span(s, id, q, e);
            lemma_char_span(s, id, p, q);
            lemma_char_span(s, id, e, rest.end);
            assert(word.span == char_span(s, id, q, e));
            assert(list.items == seq![word] + rest.items);
            assert forall|i: int| 0 <= i < list.items.len() implies lies_in(
                (#[trigger] list.items[i]).span,
                id,
                offset(s, p) as usize,
                offset(s, list.end) as usize,
            ) by {
                if i > 0 {
                    assert(list.items[i] == rest.items[i - 1]);
                }
            }
            assert forall|i: int, j: int| 0 <= i < j < list.items.len() implies (
            #[trigger] list.items[i]).span.end <= (#[trigger] list.items[j]).span.start by {
                assert(list.items[j] == rest.items[j - 1]);
                if i > 0 {
                    assert(list.items[i] == rest.items[i - 1]);
                }
            }
        }
    }
}

proof fn lemma_directive_nests(s: Seq<char>, id: SourceId, p: int)
    requires
        countable(s),
        0 <= p <= s.len(),
    ensures
        directive_at(s, id, p) matches Ok((tree, e)) ==> p < e <= s.len() && nests(tree, id)
            && lies_in(tree.span, id, offset(s, p) as usize, offset(s, e) as usize),
    decreases s.len() - p, 1int,
{
    lemma_directive_at(s, id, p);
    lemma_literal_at(s, id, p);
    if let Ok((name, e)) = literal_at(s, id, p) {
        let args = args_at(s, id, e);
        lemma_words_in_order(s, id, e);
        lemma_spacing_end(s, args.end);
        let q = spacing_end(s, args.end);
        lemma_body_at(s, id, q);
        lemma_body_nests(s, id, q);
        lemma_char_span(s, id, p, e);
        lemma_char_span(s, id, e, args.end);
        lemma_char_span(s, id, args.end, q);
        if let Ok((body, end)) = body_at(s, id, q) {
            lemma_spacing_end(s, end);
            lemma_char_span(s, id, p, end);
            lemma_char_span(s, id, q, end);
            lemma_char_span(s, id, end, spacing_end(s, end));
            assert(name.span == char_span(s, id, p, e));
        }
    }
}

proof fn lemma_body_nests(s: Seq<char>, id: SourceId, p: int)
    requires
        countable(s),
        0 <= p <= s.len(),
    ensures
        body_at(s, id, p) matches Ok((body, e)) ==> {
            &&& p < e <= s.len()
            &&& lies_in(body_start(body), id, offset(s, p) as usize, offset(s, e) as usize)
            &&& body_start(body).start == offset(s, p)
            &&& body_stop(body).source_id == id
            &&& body_stop(body).end == offset(s, e)
            &&& body matches BodyTree::Block { open, children, close } ==> {
                &&& open.end <= close.start <= close.end
                &&& directives_in_order(children, id, open.end, close.start)
                &&& forall|i: int| 0 <= i < children.len() ==> nests(#[trigger] children[i], id)
            }
        },
    decreases s.len() - p, 0int,
{
    lemma_body_at(s, id, p);
    if p < s.len() {
        lemma_char_span(s, id, p, p + 1);
        if s[p] == '{' {
            lemma_spacing_end(s, p + 1);
            let from = spacing_end(s, p + 1);
            let list = directives_at(s, id, from);
            lemma_directives_nest(s, id, from);
            lemma_spacing_end(s, list.end);
            let close = spacing_end(s, list.end);
            if close < s.len() && s[close] == '}' {
                lemma_char_span(s, id, p + 1, from);
                lemma_char_span(s, id, from, list.end);
                lemma_char_span(s, id, list.end, close);
                lemma_char_span(s, id, close, close + 1);
            }
        }
    }
}

proof fn lemma_directives_nest(s: Seq<char>, id: SourceId, p: int)
    requires
        countable(s),
        0 <= p <= s.len(),
    ensures
        p <= directives_at(s, id, p).end <= s.len(),
        directives_in_order(
            directives_at(s, id, p).items,
            id,
            offset(s, p) as usize,
            offset(s, directives_at(s, id, p).end) as usize,
        ),
        forall|i: int|
            0 <= i < directives_at(s, id, p).items.len() ==> nests(
                #[trigger] directives_at(s, id, p).items[i],
                id,
            ),
    decreases s.len() - p, 2int,
{
    let list = directives_at(s, id, p);
    lemma_directives_at(s, id, p);
    lemma_directive_nests(s, id, p);
    if let Ok((tree, e)) = directive_at(s, id, p) {
        lemma_directives_nest(s, id, e);
        let rest = directives_at(s, id, e);
        lemma_char_span(s, id, p, e);
        lemma_char_span(s, id, e, rest.end);
        assert(list.items == seq![tree] + rest.items);
        assert forall|i: int| 0 <= i < list.items.len() implies lies_in(
            (#[trigger] list.items[i]).span,
            id,
            offset(s, p) as usize,
            offset(s, list.end) as usize,
        ) && nests(list.items[i], id) by {
            if i > 0 {
                assert(list.items[i] == rest.items[i - 1]);
            }
        }
        assert forall|i: int, j: int| 0 <= i < j < list.items.len() implies (
        #[trigger] list.items[i]).span.end <= (#[trigger] list.items[j]).span.start by {
            assert(list.items[j] == rest.items[j - 1]);
            if i > 0 {
                assert(list.items[i] == rest.items[i - 1]);
            }
        }
    }
}

/// The spans of a text that was read lie inside each other and behind each other as the directives
/// do: those of a block between its braces, and none beyond the end of the text.
pub proof fn spans_nest(s: Seq<char>, id: SourceId, list: Seq<DirectiveTree>)
    requires
        file_trees(s, id) == Ok::<Seq<DirectiveTree>, int>(list),
        encode_utf8(s).len() <= usize::MAX,
    ensures
        directives_in_order(list, id, 0, encode_utf8(s).len() as usize),
        forall|i: int| 0 <= i < list.len() ==> nests(#[trigger] list[i], id),
{
    lemma_offset_total(s);
    let start = spacing_end(s, 0);
    lemma_spacing_end(s, 0);
    lemma_directives_nest(s, id, start);
    let end = directives_at(s, id, start).end;
    lemma_char_span(s, id, start, end);
    lemma_char_span(s, id, end, s.len() as int);
}

} // verus!
