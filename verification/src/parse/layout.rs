//! Configuration texts as they are written, and that they are read for what they say.
use vstd::prelude::*;
use vstd::utf8::encode_utf8;

use crate::parse::ast::{BodyTree, DirectiveTree, Spanned};
use crate::parse::grammar::{
    args_at, bare_end, body_at, char_span, comment_end, directive_at, directives_at, file_trees,
    lemma_args_at, lemma_directive_at, lemma_directives_at, lemma_literal_at, lemma_spacing_end,
    literal_at, offset_counts_bytes, quoted_end, spacing_end, unquoted,
};
use crate::parse::source::{SourceId, SourceSpan};

verus! {

/// What stands between words: a white character, or a comment up to the end of its line.
pub enum Gap {
    Space(char),
    Comment(Seq<char>),
}

/// What is written inside quotes: a character that stands for itself, one that needs a backslash before
/// it, or a backslash that stands for itself because no such character is behind it.
pub enum Quoted {
    Plain(char),
    Escaped(char),
    Backslash(char),
}

/// A word, bare or in quotes.
pub enum Word {
    Bare(Seq<char>),
    Quoted { items: Seq<Quoted>, quote: char },
}

/// A directive as it is written, with what stands behind it up to the next one.
pub struct Written {
    pub name: Word,
    pub args: Seq<(Seq<Gap>, Word)>,
    pub gap: Seq<Gap>,
    pub body: WrittenBody,
    pub after: Seq<Gap>,
}

/// The end of a directive as it is written: a semicolon, or a block in braces.
pub enum WrittenBody {
    Leaf,
    Block { gap: Seq<Gap>, children: Seq<Written> },
}

/// A white character: a space, a tab, a carriage return or a line feed.
pub open spec fn is_white(c: char) -> bool {
    c == ' ' || c == '\t' || c == '\r' || c == '\n'
}

/// A character that ends a bare word.
pub open spec fn ends_word(c: char) -> bool {
    c == ' ' || c == '\t' || c == '\r' || c == '\n' || c == ';' || c == '{' || c == '}' || c == '"'
        || c == '\'' || c == '#'
}

/// The text of a gap.
pub open spec fn gap_text(gap: Gap) -> Seq<char> {
    match gap {
        Gap::Space(c) => seq![c],
        Gap::Comment(text) => seq!['#'] + text + seq!['\n'],
    }
}

/// Whether a gap is well written.
pub open spec fn gap_ok(gap: Gap) -> bool {
    match gap {
        Gap::Space(c) => is_white(c),
        Gap::Comment(text) => forall|i: int| 0 <= i < text.len() ==> #[trigger] text[i] != '\n',
    }
}

/// The text of gaps.
pub open spec fn gaps_text(gaps: Seq<Gap>) -> Seq<char>
    decreases gaps.len(),
{
    if gaps.len() == 0 {
        seq![]
    } else {
        gap_text(gaps[0]) + gaps_text(gaps.skip(1))
    }
}

/// Whether gaps are well written.
pub open spec fn gaps_ok(gaps: Seq<Gap>) -> bool {
    forall|i: int| 0 <= i < gaps.len() ==> gap_ok(#[trigger] gaps[i])
}

/// The text of what stands in quotes.
pub open spec fn items_text(items: Seq<Quoted>) -> Seq<char>
    decreases items.len(),
{
    if items.len() == 0 {
        seq![]
    } else {
        (match items[0] {
            Quoted::Plain(c) => seq![c],
            Quoted::Escaped(c) => seq!['\\', c],
            Quoted::Backslash(c) => seq!['\\', c],
        }) + items_text(items.skip(1))
    }
}

/// What the content of quotes says.
pub open spec fn items_value(items: Seq<Quoted>) -> Seq<char>
    decreases items.len(),
{
    if items.len() == 0 {
        seq![]
    } else {
        (match items[0] {
            Quoted::Plain(c) => seq![c],
            Quoted::Escaped(c) => seq![c],
            Quoted::Backslash(c) => seq!['\\', c],
        }) + items_value(items.skip(1))
    }
}

/// Whether an item in quotes is well written.
pub open spec fn item_ok(item: Quoted, quote: char) -> bool {
    match item {
        Quoted::Plain(c) => c != quote && c != '\\',
        Quoted::Escaped(c) => c == quote || c == '\\' || c == '\n',
        Quoted::Backslash(c) => c != quote && c != '\\' && c != '\n',
    }
}

/// The text of a word.
pub open spec fn word_text(word: Word) -> Seq<char> {
    match word {
        Word::Bare(text) => text,
        Word::Quoted { items, quote } => seq![quote] + items_text(items) + seq![quote],
    }
}

/// What a word says.
pub open spec fn word_value(word: Word) -> Seq<char> {
    match word {
        Word::Bare(text) => text,
        Word::Quoted { items, .. } => items_value(items),
    }
}

/// Whether a word is well written.
pub open spec fn word_ok(word: Word) -> bool {
    match word {
        Word::Bare(text) => text.len() > 0 && forall|i: int|
            0 <= i < text.len() ==> !ends_word(#[trigger] text[i]),
        Word::Quoted { items, quote } => (quote == '"' || quote == '\'') && forall|i: int|
            0 <= i < items.len() ==> item_ok(#[trigger] items[i], quote),
    }
}

/// The text of arguments, each with the gaps before it.
pub open spec fn args_text(args: Seq<(Seq<Gap>, Word)>) -> Seq<char>
    decreases args.len(),
{
    if args.len() == 0 {
        seq![]
    } else {
        gaps_text(args[0].0) + word_text(args[0].1) + args_text(args.skip(1))
    }
}

/// Whether arguments are well written: some gap stands before each.
pub open spec fn args_ok(args: Seq<(Seq<Gap>, Word)>) -> bool {
    forall|i: int|
        0 <= i < args.len() ==> (#[trigger] args[i]).0.len() > 0 && gaps_ok(args[i].0) && word_ok(
            args[i].1,
        )
}

/// The text of a directive.
pub open spec fn written_text(directive: Written) -> Seq<char>
    decreases directive, 1int,
{
    word_text(directive.name) + args_text(directive.args) + gaps_text(directive.gap) + body_text(
        directive.body,
    ) + gaps_text(directive.after)
}

/// The text of the end of a directive.
pub open spec fn body_text(body: WrittenBody) -> Seq<char>
    decreases body, 1int,
{
    match body {
        WrittenBody::Leaf => seq![';'],
        WrittenBody::Block { gap, children } => seq!['{'] + gaps_text(gap) + list_text(children)
            + seq!['}'],
    }
}

/// The text of directives.
pub open spec fn list_text(list: Seq<Written>) -> Seq<char>
    decreases list, 2int,
{
    if list.len() == 0 {
        seq![]
    } else {
        written_text(list[0]) + list_text(list.subrange(1, list.len() as int))
    }
}

/// Whether a directive is well written.
pub open spec fn written_ok(directive: Written) -> bool
    decreases directive, 1int,
{
    &&& word_ok(directive.name)
    &&& args_ok(directive.args)
    &&& gaps_ok(directive.gap)
    &&& gaps_ok(directive.after)
    &&& body_ok(directive.body)
}

/// Whether the end of a directive is well written.
pub open spec fn body_ok(body: WrittenBody) -> bool
    decreases body, 1int,
{
    match body {
        WrittenBody::Leaf => true,
        WrittenBody::Block { gap, children } => gaps_ok(gap) && list_ok(children),
    }
}

/// Whether directives are well written.
pub open spec fn list_ok(list: Seq<Written>) -> bool
    decreases list, 2int,
{
    list.len() > 0 ==> written_ok(list[0]) && list_ok(list.subrange(1, list.len() as int))
}

/// The place of the characters from `from` up to `to`, counted in bytes.
pub open spec fn place(s: Seq<char>, id: SourceId, from: int, to: int) -> SourceSpan {
    SourceSpan {
        source_id: id,
        start: encode_utf8(s.take(from)).len() as usize,
        end: encode_utf8(s.take(to)).len() as usize,
    }
}

/// Whether arguments say what is written at `p`, each at its own place.
pub open spec fn args_say(
    s: Seq<char>,
    id: SourceId,
    p: int,
    written: Seq<(Seq<Gap>, Word)>,
    args: Seq<Spanned<Seq<char>>>,
) -> bool
    decreases written.len(),
{
    if written.len() == 0 {
        args.len() == 0
    } else {
        let start = p + gaps_text(written[0].0).len();
        let end = start + word_text(written[0].1).len();
        &&& args.len() > 0
        &&& args[0].value == word_value(written[0].1)
        &&& args[0].span == place(s, id, start, end)
        &&& args_say(s, id, end, written.skip(1), args.skip(1))
    }
}

/// Whether a tree says what is written at `p`, each part at its own place.
pub open spec fn says(
    s: Seq<char>,
    id: SourceId,
    p: int,
    written: Written,
    tree: DirectiveTree,
) -> bool
    decreases written, 1int,
{
    let name_end = p + word_text(written.name).len();
    let args_end = name_end + args_text(written.args).len();
    let body = args_end + gaps_text(written.gap).len();
    let end = body + body_text(written.body).len();
    &&& tree.name.value == word_value(written.name)
    &&& tree.name.span == place(s, id, p, name_end)
    &&& args_say(s, id, name_end, written.args, tree.args)
    &&& body_says(s, id, body, written.body, tree.body)
    &&& tree.span == place(s, id, p, end)
}

/// Whether the end of a tree says what is written at `p`.
pub open spec fn body_says(
    s: Seq<char>,
    id: SourceId,
    p: int,
    written: WrittenBody,
    tree: BodyTree,
) -> bool
    decreases written, 1int,
{
    match written {
        WrittenBody::Leaf => tree matches BodyTree::Leaf { semicolon } && semicolon == place(
            s,
            id,
            p,
            p + 1,
        ),
        WrittenBody::Block { gap, children } => {
            let first = p + 1 + gaps_text(gap).len();
            let last = first + list_text(children).len();
            tree matches BodyTree::Block { open, children: trees, close } && open == place(
                s,
                id,
                p,
                p + 1,
            ) && list_says(s, id, first, children, trees) && close == place(s, id, last, last + 1)
        },
    }
}

/// Whether trees say what is written at `p`, as many and in the same order.
pub open spec fn list_says(
    s: Seq<char>,
    id: SourceId,
    p: int,
    written: Seq<Written>,
    trees: Seq<DirectiveTree>,
) -> bool
    decreases written, 2int,
{
    if written.len() == 0 {
        trees.len() == 0
    } else {
        &&& trees.len() > 0
        &&& says(s, id, p, written[0], trees[0])
        &&& list_says(
            s,
            id,
            p + written_text(written[0]).len(),
            written.subrange(1, written.len() as int),
            trees.skip(1),
        )
    }
}

/// Whether a text holds another at `p`.
pub open spec fn holds(s: Seq<char>, p: int, text: Seq<char>) -> bool {
    0 <= p && p + text.len() <= s.len() && s.subrange(p, p + text.len()) == text
}

proof fn lemma_holds_parts(s: Seq<char>, p: int, one: Seq<char>, other: Seq<char>)
    requires
        holds(s, p, one + other),
    ensures
        holds(s, p, one),
        holds(s, p + one.len(), other),
{
    let whole = one + other;
    assert(s.subrange(p, p + one.len()) =~= one) by {
        assert forall|i: int| 0 <= i < one.len() implies s[p + i] == one[i] by {
            assert(s.subrange(p, p + whole.len())[i] == whole[i]);
        }
    }
    assert(s.subrange(p + one.len(), p + one.len() + other.len()) =~= other) by {
        assert forall|i: int| 0 <= i < other.len() implies s[p + one.len() + i] == other[i] by {
            assert(s.subrange(p, p + whole.len())[one.len() + i] == whole[one.len() + i]);
        }
    }
}

proof fn lemma_holds_at(s: Seq<char>, p: int, text: Seq<char>, i: int)
    requires
        holds(s, p, text),
        0 <= i < text.len(),
    ensures
        s[p + i] == text[i],
{
    assert(s.subrange(p, p + text.len())[i] == text[i]);
}

proof fn lemma_comment(s: Seq<char>, p: int, end: int)
    requires
        0 <= p <= end < s.len(),
        s[end] == '\n',
        forall|i: int| p <= i < end ==> s[i] != '\n',
    ensures
        comment_end(s, p) == end + 1,
    decreases end - p,
{
    if p < end {
        lemma_comment(s, p + 1, end);
    }
}

proof fn lemma_gaps(s: Seq<char>, p: int, gaps: Seq<Gap>)
    requires
        holds(s, p, gaps_text(gaps)),
        gaps_ok(gaps),
    ensures
        spacing_end(s, p) == spacing_end(s, p + gaps_text(gaps).len()),
    decreases gaps.len(),
{
    if gaps.len() > 0 {
        let first = gap_text(gaps[0]);
        let rest = gaps.skip(1);
        lemma_holds_parts(s, p, first, gaps_text(rest));
        assert forall|i: int| 0 <= i < rest.len() implies gap_ok(#[trigger] rest[i]) by {
            assert(rest[i] == gaps[i + 1]);
        }
        lemma_gaps(s, p + first.len(), rest);
        assert(gap_ok(gaps[0]));
        lemma_holds_at(s, p, first, 0);
        match gaps[0] {
            Gap::Space(c) => {
                assert(s[p] == c);
            },
            Gap::Comment(text) => {
                assert(s[p] == '#');
                let end = p + 1 + text.len();
                lemma_holds_at(s, p, first, first.len() - 1);
                assert(s[end] == '\n');
                assert forall|i: int| p + 1 <= i < end implies s[i] != '\n' by {
                    lemma_holds_at(s, p, first, i - p);
                    assert(first[i - p] == text[i - p - 1]);
                }
                lemma_comment(s, p + 1, end);
            },
        }
    }
}

proof fn lemma_bare(s: Seq<char>, p: int, end: int)
    requires
        0 <= p <= end <= s.len(),
        forall|i: int| p <= i < end ==> !ends_word(#[trigger] s[i]),
        end == s.len() || ends_word(s[end]),
    ensures
        bare_end(s, p) == end,
    decreases end - p,
{
    if p < end {
        lemma_bare(s, p + 1, end);
    }
}

proof fn lemma_items(s: Seq<char>, p: int, items: Seq<Quoted>, quote: char)
    requires
        quote == '"' || quote == '\'',
        forall|i: int| 0 <= i < items.len() ==> item_ok(#[trigger] items[i], quote),
        holds(s, p, items_text(items) + seq![quote]),
    ensures
        quoted_end(s, p, quote) == Some(p + items_text(items).len()),
        unquoted(items_text(items), quote) == items_value(items),
    decreases items.len(),
{
    let text = items_text(items);
    let whole = text + seq![quote];
    if items.len() == 0 {
        assert(whole =~= seq![quote]);
        lemma_holds_at(s, p, whole, 0);
        assert(text =~= seq![]);
    } else {
        let rest = items.skip(1);
        let tail = items_text(rest);
        let first = match items[0] {
            Quoted::Plain(c) => seq![c],
            Quoted::Escaped(c) => seq!['\\', c],
            Quoted::Backslash(c) => seq!['\\', c],
        };
        assert(whole =~= first + (tail + seq![quote]));
        lemma_holds_parts(s, p, first, tail + seq![quote]);
        assert forall|i: int| 0 <= i < rest.len() implies item_ok(#[trigger] rest[i], quote) by {
            assert(rest[i] == items[i + 1]);
        }
        lemma_items(s, p + first.len(), rest, quote);
        assert(item_ok(items[0], quote));
        lemma_holds_at(s, p, first, 0);
        assert(text.skip(first.len() as int) =~= tail);
        assert(text[0] == first[0]);
        match items[0] {
            Quoted::Plain(c) => {
                assert(text.skip(1) =~= tail);
            },
            Quoted::Escaped(c) => {
                lemma_holds_at(s, p, first, 1);
                assert(text[1] == c);
                assert(text.skip(2) =~= tail);
            },
            Quoted::Backslash(c) => {
                lemma_holds_at(s, p, first, 1);
                assert(text[1] == c);
                let behind = text.skip(1);
                assert(behind[0] == c);
                assert(behind.skip(1) =~= tail);
                assert(quoted_end(s, p, quote) == quoted_end(s, p + 1, quote));
                assert(quoted_end(s, p + 1, quote) == quoted_end(s, p + 2, quote));
                assert(unquoted(text, quote) == seq!['\\'] + unquoted(behind, quote));
                assert(unquoted(behind, quote) == seq![c] + unquoted(tail, quote));
                assert(seq!['\\'] + (seq![c] + unquoted(tail, quote)) =~= seq!['\\', c] + unquoted(
                    tail,
                    quote,
                ));
            },
        }
    }
}

proof fn lemma_place(s: Seq<char>, id: SourceId, from: int, to: int)
    requires
        0 <= from <= s.len(),
        0 <= to <= s.len(),
    ensures
        char_span(s, id, from, to) == place(s, id, from, to),
{
    offset_counts_bytes(s, from);
    offset_counts_bytes(s, to);
}

proof fn lemma_word(s: Seq<char>, id: SourceId, p: int, word: Word)
    requires
        word_ok(word),
        holds(s, p, word_text(word)),
        word is Bare ==> p + word_text(word).len() == s.len() || ends_word(
            s[p + word_text(word).len()],
        ),
    ensures
        word_text(word).len() > 0,
        !is_white(s[p]) && s[p] != '#' && s[p] != ';' && s[p] != '{' && s[p] != '}',
        literal_at(s, id, p) == Ok::<(Spanned<Seq<char>>, int), int>(
            (
                Spanned {
                    value: word_value(word),
                    span: place(s, id, p, p + word_text(word).len()),
                },
                p + word_text(word).len(),
            ),
        ),
{
    let text = word_text(word);
    let end = p + text.len();
    lemma_place(s, id, p, end);
    match word {
        Word::Bare(text) => {
            assert forall|i: int| p <= i < end implies !ends_word(#[trigger] s[i]) by {
                lemma_holds_at(s, p, text, i - p);
                assert(!ends_word(text[i - p]));
            }
            lemma_bare(s, p, end);
            assert(!ends_word(s[p]));
        },
        Word::Quoted { items, quote } => {
            let inside = items_text(items);
            assert(text =~= seq![quote] + (inside + seq![quote]));
            lemma_holds_parts(s, p, seq![quote], inside + seq![quote]);
            lemma_holds_at(s, p, text, 0);
            lemma_items(s, p + 1, items, quote);
            lemma_holds_parts(s, p + 1, inside, seq![quote]);
            assert(s.subrange(p + 1, p + 1 + inside.len()) == inside);
        },
    }
}

/// The place behind spacing, where a semicolon or a brace ends a list of words.
proof fn lemma_no_arg(s: Seq<char>, id: SourceId, p: int)
    requires
        0 <= p <= s.len(),
        ({
            let q = spacing_end(s, p);
            q == s.len() || s[q] == ';' || s[q] == '{' || s[q] == '}'
        }),
    ensures
        args_at(s, id, p).items == Seq::<Spanned<Seq<char>>>::empty(),
        args_at(s, id, p).end == p,
{
    lemma_spacing_end(s, p);
    let q = spacing_end(s, p);
    assert(bare_end(s, q) == q);
}

proof fn lemma_args(s: Seq<char>, id: SourceId, p: int, args: Seq<(Seq<Gap>, Word)>)
    requires
        args_ok(args),
        holds(s, p, args_text(args)),
        ({
            let end = p + args_text(args).len();
            let q = spacing_end(s, end);
            &&& q < s.len()
            &&& s[q] == ';' || s[q] == '{'
            &&& ends_word(s[end])
        }),
    ensures
        args_say(s, id, p, args, args_at(s, id, p).items),
        args_at(s, id, p).end == p + args_text(args).len(),
        p < s.len() && ends_word(s[p]),
    decreases args.len(),
{
    if args.len() == 0 {
        lemma_no_arg(s, id, p);
    } else {
        let gaps = args[0].0;
        let word = args[0].1;
        let rest = args.skip(1);
        assert(args_ok(args));
        assert(args[0].0.len() > 0 && gaps_ok(gaps) && word_ok(word));
        assert forall|i: int| 0 <= i < rest.len() implies (#[trigger] rest[i]).0.len() > 0 && gaps_ok(
            rest[i].0,
        ) && word_ok(rest[i].1) by {
            assert(rest[i] == args[i + 1]);
        }
        let start = p + gaps_text(gaps).len();
        let end = start + word_text(word).len();
        assert(args_text(args) == gaps_text(gaps) + word_text(word) + args_text(rest));
        lemma_holds_parts(s, p, gaps_text(gaps) + word_text(word), args_text(rest));
        lemma_holds_parts(s, p, gaps_text(gaps), word_text(word));
        lemma_args(s, id, end, rest);
        lemma_word(s, id, start, word);
        lemma_gaps(s, p, gaps);
        assert(spacing_end(s, start) == start);
        let first = gap_text(gaps[0]);
        assert(gap_ok(gaps[0]));
        assert(gaps_text(gaps) == first + gaps_text(gaps.skip(1)));
        lemma_holds_at(s, p, gaps_text(gaps), 0);
        assert(gaps_text(gaps)[0] == first[0]);
        assert(start > p);
        let items = args_at(s, id, p).items;
        let later = args_at(s, id, end).items;
        assert(items.skip(1) =~= later);
    }
}

proof fn lemma_written(s: Seq<char>, id: SourceId, p: int, written: Written)
    requires
        written_ok(written),
        holds(s, p, written_text(written)),
    ensures
        written_text(written).len() > 0,
        spacing_end(s, p) == p,
        directive_at(s, id, p) matches Ok((tree, end)) && says(s, id, p, written, tree) && end
            == spacing_end(s, p + written_text(written).len()),
    decreases written, 1int,
{
    let name = word_text(written.name);
    let args = args_text(written.args);
    let gap = gaps_text(written.gap);
    let body = body_text(written.body);
    let after = gaps_text(written.after);
    let name_end = p + name.len();
    let args_end = name_end + args.len();
    let start = args_end + gap.len();
    let end = start + body.len();
    assert(written_text(written) == name + args + gap + body + after);
    lemma_holds_parts(s, p, name + args + gap + body, after);
    lemma_holds_parts(s, p, name + args + gap, body);
    lemma_holds_parts(s, p, name + args, gap);
    lemma_holds_parts(s, p, name, args);
    assert(body.len() > 0 && (body[0] == ';' || body[0] == '{'));
    lemma_holds_at(s, start, body, 0);
    lemma_gaps(s, args_end, written.gap);
    assert(spacing_end(s, start) == start);
    assert(ends_word(s[args_end])) by {
        if written.gap.len() > 0 {
            assert(gap_ok(written.gap[0]));
            assert(gap == gap_text(written.gap[0]) + gaps_text(written.gap.skip(1)));
            lemma_holds_at(s, args_end, gap, 0);
        } else {
            assert(gap =~= seq![]);
        }
    }
    lemma_args(s, id, name_end, written.args);
    lemma_word(s, id, p, written.name);
    lemma_body(s, id, start, written.body);
    lemma_gaps(s, end, written.after);
    lemma_place(s, id, p, end);
}

proof fn lemma_body(s: Seq<char>, id: SourceId, p: int, body: WrittenBody)
    requires
        body_ok(body),
        holds(s, p, body_text(body)),
    ensures
        body_at(s, id, p) matches Ok((tree, end)) && body_says(s, id, p, body, tree) && end == p
            + body_text(body).len(),
    decreases body, 1int,
{
    let text = body_text(body);
    lemma_holds_at(s, p, text, 0);
    lemma_place(s, id, p, p + 1);
    match body {
        WrittenBody::Leaf => {},
        WrittenBody::Block { gap, children } => {
            let before = gaps_text(gap);
            let inside = list_text(children);
            assert(text == seq!['{'] + before + inside + seq!['}']);
            lemma_holds_parts(s, p, seq!['{'] + before + inside, seq!['}']);
            lemma_holds_parts(s, p, seq!['{'] + before, inside);
            lemma_holds_parts(s, p, seq!['{'], before);
            let first = p + 1 + before.len();
            let last = first + inside.len();
            lemma_holds_at(s, last, seq!['}'], 0);
            assert(s[last] == '}');
            assert(spacing_end(s, last) == last);
            assert(bare_end(s, last) == last);
            assert(literal_at(s, id, last) is Err);
            lemma_gaps(s, p + 1, gap);
            lemma_list(s, id, first, children);
            lemma_place(s, id, last, last + 1);
        },
    }
}

proof fn lemma_list(s: Seq<char>, id: SourceId, p: int, list: Seq<Written>)
    requires
        list_ok(list),
        holds(s, p, list_text(list)),
        literal_at(s, id, spacing_end(s, p + list_text(list).len())) is Err,
    ensures
        ({
            let read = directives_at(s, id, spacing_end(s, p));
            list_says(s, id, p, list, read.items) && read.end == spacing_end(
                s,
                p + list_text(list).len(),
            )
        }),
    decreases list, 2int,
{
    if list.len() == 0 {
        assert(list_text(list) =~= seq![]);
        let q = spacing_end(s, p);
        assert(directive_at(s, id, q) is Err);
        assert(directives_at(s, id, q).items.len() == 0);
        assert(directives_at(s, id, q).end == q);
    } else {
        let rest = list.subrange(1, list.len() as int);
        let first = written_text(list[0]);
        assert(list_text(list) == first + list_text(rest));
        lemma_holds_parts(s, p, first, list_text(rest));
        lemma_written(s, id, p, list[0]);
        lemma_list(s, id, p + first.len(), rest);
        lemma_directive_at(s, id, p);
        let read = directives_at(s, id, p);
        let next = spacing_end(s, p + first.len());
        let later = directives_at(s, id, next);
        let tree = directive_at(s, id, p)->Ok_0.0;
        assert(directive_at(s, id, p) == Ok::<(DirectiveTree, int), int>((tree, next)));
        assert(p < next <= s.len());
        assert(read.items =~= seq![tree] + later.items);
        assert(read.end == later.end);
        assert(read.items.skip(1) =~= later.items);
        assert(read.items[0] == tree);
        assert(list_says(s, id, p + first.len(), rest, read.items.skip(1)));
        assert(list_says(s, id, p, list, read.items));
    }
}

proof fn lemma_open_comment(s: Seq<char>, p: int)
    requires
        0 <= p <= s.len(),
        forall|i: int| p <= i < s.len() ==> s[i] != '\n',
    ensures
        comment_end(s, p) == s.len(),
    decreases s.len() - p,
{
    if p < s.len() {
        lemma_open_comment(s, p + 1);
    }
}

/// Directives that are written with any gaps between their words, and any words in or without quotes,
/// are read for what they say: as many, in the same order and nesting, with the same names and
/// arguments, each at its own place. A comment may end the text without a line feed.
pub proof fn written_directives_are_read(
    id: SourceId,
    before: Seq<Gap>,
    list: Seq<Written>,
    comment: Option<Seq<char>>,
)
    requires
        gaps_ok(before),
        list_ok(list),
        comment matches Some(text) ==> forall|i: int|
            0 <= i < text.len() ==> #[trigger] text[i] != '\n',
    ensures
        ({
            let end = match comment {
                Some(text) => seq!['#'] + text,
                None => seq![],
            };
            let s = gaps_text(before) + list_text(list) + end;
            file_trees(s, id) matches Ok(trees) && list_says(
                s,
                id,
                gaps_text(before).len() as int,
                list,
                trees,
            )
        }),
{
    let end = match comment {
        Some(text) => seq!['#'] + text,
        None => seq![],
    };
    let head = gaps_text(before);
    let middle = list_text(list);
    let s = head + middle + end;
    assert(holds(s, 0, s)) by {
        assert(s.subrange(0, s.len() as int) =~= s);
    }
    assert(s =~= (head + middle) + end);
    lemma_holds_parts(s, 0, head + middle, end);
    lemma_holds_parts(s, 0, head, middle);
    let p = head.len() as int;
    let z = p + middle.len();
    lemma_gaps(s, 0, before);
    assert(spacing_end(s, z) == s.len()) by {
        match comment {
            Some(text) => {
                lemma_holds_at(s, z, end, 0);
                assert forall|i: int| z + 1 <= i < s.len() implies s[i] != '\n' by {
                    lemma_holds_at(s, z, end, i - z);
                    assert(end[i - z] == text[i - z - 1]);
                }
                lemma_open_comment(s, z + 1);
                assert(spacing_end(s, s.len() as int) == s.len());
            },
            None => {
                assert(z == s.len());
            },
        }
    }
    assert(bare_end(s, s.len() as int) == s.len());
    lemma_list(s, id, p, list);
    assert(spacing_end(s, s.len() as int) == s.len());
}

proof fn lemma_holds_join(s: Seq<char>, p: int, one: Seq<char>, other: Seq<char>)
    requires
        holds(s, p, one),
        holds(s, p + one.len(), other),
    ensures
        holds(s, p, one + other),
{
    let whole = one + other;
    assert forall|i: int| 0 <= i < whole.len() implies s[p + i] == whole[i] by {
        if i < one.len() {
            lemma_holds_at(s, p, one, i);
        } else {
            lemma_holds_at(s, p + one.len(), other, i - one.len());
        }
    }
    assert(s.subrange(p, p + whole.len()) =~= whole);
}

/// Whether a comment stands at `p` that goes on up to the end of the text.
pub open spec fn open_comment(s: Seq<char>, p: int) -> bool {
    &&& 0 <= p < s.len()
    &&& s[p] == '#'
    &&& forall|i: int| p < i < s.len() ==> s[i] != '\n'
}

proof fn lemma_comment_stops(s: Seq<char>, p: int)
    requires
        0 <= p <= s.len(),
    ensures
        p <= comment_end(s, p) <= s.len(),
        forall|i: int| p <= i < comment_end(s, p) - 1 ==> s[i] != '\n',
        comment_end(s, p) < s.len() ==> comment_end(s, p) > p && s[comment_end(s, p) - 1] == '\n',
        comment_end(s, p) == s.len() && comment_end(s, p) > p && s[s.len() - 1] != '\n' ==> forall|
            i: int,
        |
            p <= i < s.len() ==> s[i] != '\n',
    decreases s.len() - p,
{
    if p < s.len() && s[p] != '\n' {
        lemma_comment_stops(s, p + 1);
    }
}

proof fn find_gaps(s: Seq<char>, p: int) -> (gaps: Seq<Gap>)
    requires
        0 <= p <= s.len(),
    ensures
        gaps_ok(gaps),
        holds(s, p, gaps_text(gaps)),
        gaps.len() == 0 ==> gaps_text(gaps).len() == 0,
        ({
            let end = p + gaps_text(gaps).len();
            end == spacing_end(s, p) || open_comment(s, end) && spacing_end(s, p) == s.len()
        }),
    decreases s.len() - p,
{
    let nothing = Seq::<Gap>::empty();
    if p < s.len() && is_white(s[p]) {
        let rest = find_gaps(s, p + 1);
        let gap = Gap::Space(s[p]);
        assert(s.subrange(p, p + 1) =~= gap_text(gap));
        lemma_more_gaps(s, p, gap, rest);
        seq![gap] + rest
    } else if p < s.len() && s[p] == '#' {
        let end = comment_end(s, p + 1);
        lemma_comment_stops(s, p + 1);
        if end > p + 1 && s[end - 1] == '\n' {
            let rest = find_gaps(s, end);
            let text = s.subrange(p + 1, end - 1);
            let gap = Gap::Comment(text);
            assert(s.subrange(p, end) =~= gap_text(gap));
            lemma_more_gaps(s, p, gap, rest);
            seq![gap] + rest
        } else {
            assert(end == s.len());
            assert(open_comment(s, p));
            assert(gaps_text(nothing) =~= seq![]);
            assert(s.subrange(p, p) =~= seq![]);
            assert(spacing_end(s, s.len() as int) == s.len());
            nothing
        }
    } else {
        assert(gaps_text(nothing) =~= seq![]);
        assert(s.subrange(p, p) =~= seq![]);
        nothing
    }
}

proof fn lemma_more_gaps(s: Seq<char>, p: int, gap: Gap, rest: Seq<Gap>)
    requires
        gap_ok(gap),
        gaps_ok(rest),
        0 <= p,
        p + gap_text(gap).len() <= s.len(),
        s.subrange(p, p + gap_text(gap).len()) == gap_text(gap),
        holds(s, p + gap_text(gap).len(), gaps_text(rest)),
    ensures
        gaps_ok(seq![gap] + rest),
        holds(s, p, gaps_text(seq![gap] + rest)),
        gaps_text(seq![gap] + rest).len() == gap_text(gap).len() + gaps_text(rest).len(),
{
    let gaps = seq![gap] + rest;
    assert(gaps.skip(1) =~= rest);
    assert(gaps[0] == gap);
    lemma_holds_join(s, p, gap_text(gap), gaps_text(rest));
}

proof fn lemma_bare_stops(s: Seq<char>, p: int)
    requires
        0 <= p <= s.len(),
    ensures
        p <= bare_end(s, p) <= s.len(),
        forall|i: int| p <= i < bare_end(s, p) ==> !ends_word(#[trigger] s[i]),
    decreases s.len() - p,
{
    if p < s.len() && !ends_word(s[p]) {
        lemma_bare_stops(s, p + 1);
    }
}

proof fn more_items(item: Quoted, rest: Seq<Quoted>, quote: char) -> (all: Seq<Quoted>)
    requires
        item_ok(item, quote),
        forall|i: int| 0 <= i < rest.len() ==> item_ok(#[trigger] rest[i], quote),
    ensures
        items_text(all) == (match item {
            Quoted::Plain(c) => seq![c],
            Quoted::Escaped(c) => seq!['\\', c],
            Quoted::Backslash(c) => seq!['\\', c],
        }) + items_text(rest),
        forall|i: int| 0 <= i < all.len() ==> item_ok(#[trigger] all[i], quote),
{
    let list = seq![item] + rest;
    assert(list.skip(1) =~= rest);
    assert(list[0] == item);
    assert forall|i: int| 0 <= i < list.len() implies item_ok(#[trigger] list[i], quote) by {
        if i > 0 {
            assert(list[i] == rest[i - 1]);
        }
    }
    list
}

proof fn find_items(s: Seq<char>, p: int, quote: char) -> (items: Seq<Quoted>)
    requires
        quote == '"' || quote == '\'',
        0 <= p,
        quoted_end(s, p, quote) is Some,
    ensures
        forall|i: int| 0 <= i < items.len() ==> item_ok(#[trigger] items[i], quote),
        holds(s, p, items_text(items) + seq![quote]),
        quoted_end(s, p, quote) == Some(p + items_text(items).len()),
    decreases s.len() - p,
{
    let nothing = Seq::<Quoted>::empty();
    if s[p] == quote {
        assert(items_text(nothing) + seq![quote] =~= seq![quote]);
        assert(s.subrange(p, p + 1) =~= seq![quote]);
        nothing
    } else {
        let escaped = p + 1 < s.len() && s[p] == '\\' && (s[p + 1] == quote || s[p + 1] == '\\'
            || s[p + 1] == '\n');
        let item = if escaped {
            Quoted::Escaped(s[p + 1])
        } else if s[p] == '\\' {
            Quoted::Backslash(s[p + 1])
        } else {
            Quoted::Plain(s[p])
        };
        let first = if s[p] == '\\' {
            seq!['\\', s[p + 1]]
        } else {
            seq![s[p]]
        };
        if s[p] == '\\' && !escaped {
            assert(quoted_end(s, p, quote) == quoted_end(s, p + 1, quote));
            assert(p + 1 < s.len());
            assert(quoted_end(s, p + 1, quote) == quoted_end(s, p + 2, quote));
        }
        let rest = find_items(s, p + first.len(), quote);
        let all = more_items(item, rest, quote);
        assert(s.subrange(p, p + first.len()) =~= first);
        lemma_holds_join(s, p, first, items_text(rest) + seq![quote]);
        assert(items_text(all) + seq![quote] =~= first + (items_text(rest) + seq![quote]));
        all
    }
}

proof fn find_word(s: Seq<char>, id: SourceId, p: int) -> (word: Word)
    requires
        0 <= p <= s.len(),
        literal_at(s, id, p) is Ok,
    ensures
        word_ok(word),
        holds(s, p, word_text(word)),
        literal_at(s, id, p)->Ok_0.1 == p + word_text(word).len(),
{
    if p < s.len() && (s[p] == '"' || s[p] == '\'') {
        let quote = s[p];
        let items = find_items(s, p + 1, quote);
        assert(s.subrange(p, p + 1) =~= seq![quote]);
        lemma_holds_join(s, p, seq![quote], items_text(items) + seq![quote]);
        let word = Word::Quoted { items, quote };
        assert(word_text(word) =~= seq![quote] + (items_text(items) + seq![quote]));
        word
    } else {
        let end = bare_end(s, p);
        lemma_bare_stops(s, p);
        let text = s.subrange(p, end);
        assert forall|i: int| 0 <= i < text.len() implies !ends_word(#[trigger] text[i]) by {
            assert(!ends_word(s[p + i]));
        }
        Word::Bare(text)
    }
}

proof fn find_args(s: Seq<char>, id: SourceId, p: int) -> (args: Seq<(Seq<Gap>, Word)>)
    requires
        0 <= p <= s.len(),
    ensures
        args_ok(args),
        holds(s, p, args_text(args)),
        args_at(s, id, p).end == p + args_text(args).len(),
    decreases s.len() - p,
{
    let nothing = Seq::<(Seq<Gap>, Word)>::empty();
    let q = spacing_end(s, p);
    lemma_spacing_end(s, p);
    if q > p && literal_at(s, id, q) is Ok {
        let gaps = find_gaps(s, p);
        lemma_literal_at(s, id, q);
        let word = find_word(s, id, q);
        let end = q + word_text(word).len();
        let rest = find_args(s, id, end);
        let args = seq![(gaps, word)] + rest;
        assert(args.skip(1) =~= rest);
        assert(args[0] == (gaps, word));
        lemma_holds_join(s, p, gaps_text(gaps), word_text(word));
        lemma_holds_join(s, p, gaps_text(gaps) + word_text(word), args_text(rest));
        assert forall|i: int| 0 <= i < args.len() implies (#[trigger] args[i]).0.len() > 0 && gaps_ok(
            args[i].0,
        ) && word_ok(args[i].1) by {
            if i > 0 {
                assert(args[i] == rest[i - 1]);
            }
        }
        args
    } else {
        assert(args_text(nothing) =~= seq![]);
        assert(s.subrange(p, p) =~= seq![]);
        nothing
    }
}

proof fn find_written(s: Seq<char>, id: SourceId, p: int) -> (written: Written)
    requires
        0 <= p <= s.len(),
        directive_at(s, id, p) is Ok,
    ensures
        written_ok(written),
        holds(s, p, written_text(written)),
        ({
            let end = p + written_text(written).len();
            let next = directive_at(s, id, p)->Ok_0.1;
            next == end || open_comment(s, end) && next == s.len()
        }),
    decreases s.len() - p, 1int,
{
    lemma_literal_at(s, id, p);
    let name = find_word(s, id, p);
    let name_end = p + word_text(name).len();
    let args = find_args(s, id, name_end);
    lemma_args_at(s, id, name_end);
    let args_end = name_end + args_text(args).len();
    let start = spacing_end(s, args_end);
    lemma_spacing_end(s, args_end);
    let gap = find_gaps(s, args_end);
    assert(body_at(s, id, start) is Ok);
    assert(start < s.len());
    let body = find_body(s, id, start);
    let end = start + body_text(body).len();
    let after = find_gaps(s, end);
    let written = Written { name, args, gap, body, after };
    lemma_holds_join(s, p, word_text(name), args_text(args));
    lemma_holds_join(s, p, word_text(name) + args_text(args), gaps_text(gap));
    lemma_holds_join(
        s,
        p,
        word_text(name) + args_text(args) + gaps_text(gap),
        body_text(body),
    );
    lemma_holds_join(
        s,
        p,
        word_text(name) + args_text(args) + gaps_text(gap) + body_text(body),
        gaps_text(after),
    );
    written
}

proof fn find_body(s: Seq<char>, id: SourceId, p: int) -> (body: WrittenBody)
    requires
        0 <= p < s.len(),
        body_at(s, id, p) is Ok,
    ensures
        body_ok(body),
        holds(s, p, body_text(body)),
        body_at(s, id, p)->Ok_0.1 == p + body_text(body).len(),
    decreases s.len() - p, 0int,
{
    if s[p] == ';' {
        assert(s.subrange(p, p + 1) =~= seq![';']);
        WrittenBody::Leaf
    } else {
        let start = spacing_end(s, p + 1);
        lemma_spacing_end(s, p + 1);
        lemma_directives_at(s, id, start);
        let list_end = directives_at(s, id, start).end;
        let close = spacing_end(s, list_end);
        lemma_spacing_end(s, list_end);
        let gap = find_gaps(s, p + 1);
        lemma_spacing_settles(s, p + 1);
        let children = find_list(s, id, start);
        let last = start + list_text(children).len();
        assert(start < s.len());
        let body = WrittenBody::Block { gap, children };
        assert(s.subrange(p, p + 1) =~= seq!['{']);
        assert(s.subrange(last, last + 1) =~= seq!['}']);
        lemma_holds_join(s, p, seq!['{'], gaps_text(gap));
        lemma_holds_join(s, p, seq!['{'] + gaps_text(gap), list_text(children));
        lemma_holds_join(s, p, seq!['{'] + gaps_text(gap) + list_text(children), seq!['}']);
        body
    }
}

proof fn lemma_spacing_settles(s: Seq<char>, p: int)
    ensures
        spacing_end(s, spacing_end(s, p)) == spacing_end(s, p),
    decreases s.len() - p,
{
    if 0 <= p < s.len() && is_white(s[p]) {
        lemma_spacing_settles(s, p + 1);
    } else if 0 <= p < s.len() && s[p] == '#' {
        lemma_comment_stops(s, p + 1);
        lemma_spacing_settles(s, comment_end(s, p + 1));
    }
}

proof fn find_list(s: Seq<char>, id: SourceId, p: int) -> (list: Seq<Written>)
    requires
        0 <= p <= s.len(),
        spacing_end(s, p) == p,
    ensures
        list_ok(list),
        holds(s, p, list_text(list)),
        ({
            let end = p + list_text(list).len();
            let read = directives_at(s, id, p).end;
            read == end || open_comment(s, end) && read == s.len()
        }),
        spacing_end(s, directives_at(s, id, p).end) == directives_at(s, id, p).end,
    decreases s.len() - p, 2int,
{
    let nothing = Seq::<Written>::empty();
    if directive_at(s, id, p) is Ok {
        lemma_directive_at(s, id, p);
        let next = directive_at(s, id, p)->Ok_0.1;
        let first = find_written(s, id, p);
        let end = p + written_text(first).len();
        lemma_next_settles(s, id, p);
        let rest = if next == end {
            find_list(s, id, next)
        } else {
            assert(list_text(nothing) =~= seq![]);
            assert(s.subrange(end, end) =~= seq![]);
            lemma_nothing_at_the_end(s, id);
            nothing
        };
        let all = seq![first] + rest;
        assert(all.subrange(1, all.len() as int) =~= rest);
        assert(all[0] == first);
        lemma_holds_join(s, p, written_text(first), list_text(rest));
        assert(list_ok(rest));
        assert(list_ok(all));
        assert(list_text(all) == written_text(first) + list_text(rest));
        all
    } else {
        assert(list_text(nothing) =~= seq![]);
        assert(s.subrange(p, p) =~= seq![]);
        nothing
    }
}

proof fn lemma_next_settles(s: Seq<char>, id: SourceId, p: int)
    requires
        directive_at(s, id, p) is Ok,
    ensures
        spacing_end(s, directive_at(s, id, p)->Ok_0.1) == directive_at(s, id, p)->Ok_0.1,
{
    let name_end = literal_at(s, id, p)->Ok_0.1;
    let start = spacing_end(s, args_at(s, id, name_end).end);
    lemma_spacing_settles(s, body_at(s, id, start)->Ok_0.1);
}

proof fn lemma_nothing_at_the_end(s: Seq<char>, id: SourceId)
    ensures
        directives_at(s, id, s.len() as int).end == s.len(),
        directives_at(s, id, s.len() as int).items.len() == 0,
        spacing_end(s, s.len() as int) == s.len(),
{
    let p = s.len() as int;
    assert(bare_end(s, p) == p);
    assert(literal_at(s, id, p) is Err);
    assert(directive_at(s, id, p) is Err);
}

/// Whether a text is made of gaps, directives that are written well, and perhaps a comment behind them
/// that no line feed ends.
pub open spec fn is_written(
    s: Seq<char>,
    before: Seq<Gap>,
    list: Seq<Written>,
    end: Seq<char>,
) -> bool {
    &&& s == gaps_text(before) + list_text(list) + end
    &&& gaps_ok(before)
    &&& list_ok(list)
    &&& end.len() > 0 ==> end[0] == '#' && !end.contains('\n')
}

proof fn lemma_is_written(s: Seq<char>, before: Seq<Gap>, list: Seq<Written>)
    requires
        gaps_ok(before),
        list_ok(list),
        holds(s, 0, gaps_text(before)),
        holds(s, gaps_text(before).len() as int, list_text(list)),
        ({
            let end = gaps_text(before).len() + list_text(list).len();
            end == s.len() || open_comment(s, end as int)
        }),
    ensures
        is_written(s, before, list, s.skip((gaps_text(before).len() + list_text(list).len()) as int)),
{
    let at = gaps_text(before).len() + list_text(list).len();
    let end = s.skip(at as int);
    lemma_holds_join(s, 0, gaps_text(before), list_text(list));
    assert(s =~= gaps_text(before) + list_text(list) + end);
    if end.contains('\n') {
        let i = choose|i: int| 0 <= i < end.len() && end[i] == '\n';
        assert(s[at + i] == '\n');
    }
}

/// Nothing else is read: a text that is read is made of directives that are written well, with gaps
/// before them and perhaps a comment behind them that no line feed ends. So a text with a directive
/// that is not ended, a quote or a block that is not closed, or a brace too many is refused.
pub proof fn only_written_directives_are_read(s: Seq<char>, id: SourceId)
    requires
        file_trees(s, id) is Ok,
    ensures
        exists|before: Seq<Gap>, list: Seq<Written>, end: Seq<char>| #[trigger]
            is_written(s, before, list, end),
{
    let start = spacing_end(s, 0);
    lemma_spacing_end(s, 0);
    lemma_spacing_settles(s, 0);
    let before = find_gaps(s, 0);
    let list = find_list(s, id, start);
    if gaps_text(before).len() == start {
        lemma_is_written(s, before, list);
    } else {
        let nothing = Seq::<Written>::empty();
        assert(list_text(nothing) =~= seq![]);
        assert(s.subrange(gaps_text(before).len() as int, gaps_text(before).len() as int) =~= seq![]);
        lemma_is_written(s, before, nothing);
    }
}

/// A word that is read and does not begin with a quote holds no white character, and none of the marks
/// of the grammar; it is taken from the text as it stands there, up to such a character.
pub proof fn bare_words_hold_no_space(s: Seq<char>, id: SourceId, p: int)
    requires
        0 <= p < s.len(),
        s[p] != '"' && s[p] != '\'',
        literal_at(s, id, p) is Ok,
    ensures
        literal_at(s, id, p) matches Ok((word, end)) && {
            &&& p < end <= s.len()
            &&& word.value == s.subrange(p, end)
            &&& forall|i: int|
                0 <= i < word.value.len() ==> {
                    let c = #[trigger] word.value[i];
                    c != ' ' && c != '\t' && c != '\r' && c != '\n' && c != ';' && c != '{' && c
                        != '}' && c != '"' && c != '\'' && c != '#'
                }
            &&& end < s.len() ==> ends_word(s[end])
        },
{
    lemma_literal_at(s, id, p);
    lemma_bare_stops(s, p);
    lemma_bare_goes_on(s, p);
    let end = bare_end(s, p);
    let value = s.subrange(p, end);
    assert forall|i: int| 0 <= i < value.len() implies !ends_word(#[trigger] value[i]) by {
        assert(!ends_word(s[p + i]));
    }
}

proof fn lemma_bare_goes_on(s: Seq<char>, p: int)
    requires
        0 <= p <= s.len(),
    ensures
        bare_end(s, p) < s.len() ==> ends_word(s[bare_end(s, p)]),
    decreases s.len() - p,
{
    if p < s.len() && !ends_word(s[p]) {
        lemma_bare_goes_on(s, p + 1);
    }
}

/// Whether two directives are written with the same words, whatever the gaps and the quotes.
pub open spec fn same_words(one: Written, other: Written) -> bool
    decreases one, 1int,
{
    &&& word_value(one.name) == word_value(other.name)
    &&& one.args.len() == other.args.len()
    &&& forall|i: int|
        0 <= i < one.args.len() ==> word_value((#[trigger] one.args[i]).1) == word_value(
            other.args[i].1,
        )
    &&& match (one.body, other.body) {
        (WrittenBody::Leaf, WrittenBody::Leaf) => true,
        (
            WrittenBody::Block { children, .. },
            WrittenBody::Block { children: others, .. },
        ) => same_list(children, others),
        _ => false,
    }
}

/// Whether directives are written with the same words.
pub open spec fn same_list(one: Seq<Written>, other: Seq<Written>) -> bool
    decreases one, 2int,
{
    &&& one.len() == other.len()
    &&& one.len() > 0 ==> same_words(one[0], other[0]) && same_list(
        one.subrange(1, one.len() as int),
        other.subrange(1, other.len() as int),
    )
}

/// Whether two trees say the same, wherever they stand.
pub open spec fn alike(one: DirectiveTree, other: DirectiveTree) -> bool
    decreases one, 1int,
{
    &&& one.name.value == other.name.value
    &&& one.args.len() == other.args.len()
    &&& forall|i: int|
        0 <= i < one.args.len() ==> (#[trigger] one.args[i]).value == other.args[i].value
    &&& match (one.body, other.body) {
        (BodyTree::Leaf { .. }, BodyTree::Leaf { .. }) => true,
        (
            BodyTree::Block { children, .. },
            BodyTree::Block { children: others, .. },
        ) => all_alike(children, others),
        _ => false,
    }
}

/// Whether trees say the same, one by one.
pub open spec fn all_alike(one: Seq<DirectiveTree>, other: Seq<DirectiveTree>) -> bool
    decreases one, 2int,
{
    &&& one.len() == other.len()
    &&& one.len() > 0 ==> alike(one[0], other[0]) && all_alike(
        one.subrange(1, one.len() as int),
        other.subrange(1, other.len() as int),
    )
}

proof fn lemma_args_values(
    s: Seq<char>,
    id: SourceId,
    p: int,
    written: Seq<(Seq<Gap>, Word)>,
    args: Seq<Spanned<Seq<char>>>,
)
    requires
        args_say(s, id, p, written, args),
    ensures
        args.len() == written.len(),
        forall|i: int|
            0 <= i < written.len() ==> #[trigger] args[i].value == word_value(written[i].1),
    decreases written.len(),
{
    if written.len() > 0 {
        let start = p + gaps_text(written[0].0).len();
        let end = start + word_text(written[0].1).len();
        lemma_args_values(s, id, end, written.skip(1), args.skip(1));
        assert forall|i: int| 0 <= i < written.len() implies #[trigger] args[i].value == word_value(
            written[i].1,
        ) by {
            if i > 0 {
                assert(args.skip(1)[i - 1] == args[i]);
                assert(written.skip(1)[i - 1] == written[i]);
            }
        }
    }
}

proof fn lemma_alike(
    s: Seq<char>,
    p: int,
    one: Written,
    tree: DirectiveTree,
    t: Seq<char>,
    q: int,
    other: Written,
    twin: DirectiveTree,
    id: SourceId,
)
    requires
        same_words(one, other),
        says(s, id, p, one, tree),
        says(t, id, q, other, twin),
    ensures
        alike(tree, twin),
    decreases one, 1int,
{
    let name_end = p + word_text(one.name).len();
    let other_end = q + word_text(other.name).len();
    lemma_args_values(s, id, name_end, one.args, tree.args);
    lemma_args_values(t, id, other_end, other.args, twin.args);
    assert forall|i: int| 0 <= i < tree.args.len() implies (#[trigger] tree.args[i]).value
        == twin.args[i].value by {
        assert(word_value(one.args[i].1) == word_value(other.args[i].1));
        assert(twin.args[i].value == word_value(other.args[i].1));
    }
    let start = name_end + args_text(one.args).len() + gaps_text(one.gap).len();
    let begin = other_end + args_text(other.args).len() + gaps_text(other.gap).len();
    match (one.body, other.body) {
        (
            WrittenBody::Block { gap, children },
            WrittenBody::Block { gap: space, children: others },
        ) => {
            lemma_all_alike(
                s,
                start + 1 + gaps_text(gap).len(),
                children,
                tree.body->children,
                t,
                begin + 1 + gaps_text(space).len(),
                others,
                twin.body->children,
                id,
            );
        },
        _ => {},
    }
}

proof fn lemma_all_alike(
    s: Seq<char>,
    p: int,
    one: Seq<Written>,
    trees: Seq<DirectiveTree>,
    t: Seq<char>,
    q: int,
    other: Seq<Written>,
    twins: Seq<DirectiveTree>,
    id: SourceId,
)
    requires
        same_list(one, other),
        list_says(s, id, p, one, trees),
        list_says(t, id, q, other, twins),
    ensures
        all_alike(trees, twins),
    decreases one, 2int,
{
    if one.len() > 0 {
        lemma_alike(s, p, one[0], trees[0], t, q, other[0], twins[0], id);
        let rest = one.subrange(1, one.len() as int);
        let others = other.subrange(1, other.len() as int);
        lemma_all_alike(
            s,
            p + written_text(one[0]).len(),
            rest,
            trees.skip(1),
            t,
            q + written_text(other[0]).len(),
            others,
            twins.skip(1),
            id,
        );
        assert(trees.skip(1) =~= trees.subrange(1, trees.len() as int));
        assert(twins.skip(1) =~= twins.subrange(1, twins.len() as int));
    }
}

/// What stands between words does not matter: two texts with the same words in the same nesting are
/// read alike, whether a space, a tab, a carriage return, a line feed or a comment parts them, and
/// however many of these.
pub proof fn gaps_do_not_matter(
    id: SourceId,
    before: Seq<Gap>,
    one: Seq<Written>,
    space: Seq<Gap>,
    other: Seq<Written>,
)
    requires
        gaps_ok(before) && list_ok(one),
        gaps_ok(space) && list_ok(other),
        same_list(one, other),
    ensures
        file_trees(gaps_text(before) + list_text(one), id) matches Ok(trees) && (file_trees(
            gaps_text(space) + list_text(other),
            id,
        ) matches Ok(twins) && all_alike(trees, twins)),
{
    written_directives_are_read(id, before, one, None);
    written_directives_are_read(id, space, other, None);
    let s = gaps_text(before) + list_text(one);
    let t = gaps_text(space) + list_text(other);
    assert(gaps_text(before) + list_text(one) + Seq::<char>::empty() =~= s);
    assert(gaps_text(space) + list_text(other) + Seq::<char>::empty() =~= t);
    lemma_all_alike(
        s,
        gaps_text(before).len() as int,
        one,
        file_trees(s, id)->Ok_0,
        t,
        gaps_text(space).len() as int,
        other,
        file_trees(t, id)->Ok_0,
        id,
    );
}

} // verus!
