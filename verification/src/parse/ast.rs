//! The syntax tree of a configuration text.
use vstd::prelude::*;

use crate::parse::source::SourceSpan;

verus! {

/// A value with the place that it was read from.
#[derive(Debug, Clone, PartialEq, Eq)]
pub struct Spanned<T> {
    pub value: T,
    pub span: SourceSpan,
}

impl<T> Spanned<T> {
    pub fn new(value: T, span: SourceSpan) -> (spanned: Self)
        ensures
            spanned == (Spanned { value, span }),
    {
        Spanned { value, span }
    }
}

/// A directive: a name, arguments, and a semicolon or a block.
#[derive(Debug, PartialEq, Eq)]
pub struct AstDirective {
    pub name: Spanned<String>,
    pub args: Vec<Spanned<String>>,
    pub body: AstBody,
    pub span: SourceSpan,
}

/// What ends a directive.
#[derive(Debug, PartialEq, Eq)]
pub enum AstBody {
    Leaf { semicolon: SourceSpan },
    Block { open: SourceSpan, children: Vec<AstDirective>, close: SourceSpan },
}

/// What a directive says, with its strings as characters.
#[verifier::ext_equal]
pub struct DirectiveTree {
    pub name: Spanned<Seq<char>>,
    pub args: Seq<Spanned<Seq<char>>>,
    pub body: BodyTree,
    pub span: SourceSpan,
}

/// What ends a directive, with the directives of a block as trees.
#[verifier::ext_equal]
pub enum BodyTree {
    Leaf { semicolon: SourceSpan },
    Block { open: SourceSpan, children: Seq<DirectiveTree>, close: SourceSpan },
}

/// A string with its place, as characters.
pub open spec fn literal_tree(literal: Spanned<String>) -> Spanned<Seq<char>> {
    Spanned { value: literal.value@, span: literal.span }
}

/// The trees of a list of directives.
pub open spec fn trees(list: Seq<AstDirective>) -> Seq<DirectiveTree> {
    list.map_values(|d: AstDirective| d.tree())
}

impl AstBody {
    /// The tree of this body.
    pub open spec fn tree(self) -> BodyTree
        decreases self,
    {
        match self {
            AstBody::Leaf { semicolon } => BodyTree::Leaf { semicolon },
            AstBody::Block { open, children, close } => BodyTree::Block {
                open,
                children: Seq::new(
                    children@.len(),
                    |i: int|
                        if 0 <= i < children@.len() {
                            children@[i].tree()
                        } else {
                            arbitrary()
                        },
                ),
                close,
            },
        }
    }
}

impl AstDirective {
    /// The tree of this directive.
    pub open spec fn tree(self) -> DirectiveTree
        decreases self,
    {
        DirectiveTree {
            name: literal_tree(self.name),
            args: self.args@.map_values(|arg: Spanned<String>| literal_tree(arg)),
            body: self.body.tree(),
            span: self.span,
        }
    }

    /// The spelling of the name.
    pub open spec fn name_text(self) -> Seq<char> {
        self.name.value@
    }

    /// The spelling of the argument with the given index.
    pub open spec fn arg(self, index: int) -> Seq<char> {
        self.args@[index].value@
    }

    /// The arguments as strings.
    pub open spec fn arg_values(self) -> Seq<String> {
        self.args@.map_values(|arg: Spanned<String>| arg.value)
    }

    /// The directives of the block, where there is one.
    pub open spec fn block(self) -> Option<Seq<AstDirective>> {
        match self.body {
            AstBody::Leaf { .. } => None,
            AstBody::Block { children, .. } => Some(children@),
        }
    }

    pub fn is_leaf(&self) -> (leaf: bool)
        ensures
            leaf == (self.body is Leaf),
            leaf == (self.block() is None),
    {
        match &self.body {
            AstBody::Leaf { .. } => true,
            AstBody::Block { .. } => false,
        }
    }

    pub fn children(&self) -> (children: Option<&Vec<AstDirective>>)
        ensures
            match children {
                Some(list) => self.block() == Some(list@),
                None => self.block() is None,
            },
    {
        match &self.body {
            AstBody::Leaf { .. } => None,
            AstBody::Block { children, .. } => Some(children),
        }
    }

    /// Whether the directive is spelled `name`.
    pub fn is_named(&self, name: &str) -> (same: bool)
        ensures
            same == (self.name_text() == name@),
    {
        crate::text::str_eq(self.name.value.as_str(), name)
    }
}

/// The directives of a list that are spelled `name`, in order.
pub open spec fn named(list: Seq<AstDirective>, name: Seq<char>) -> Seq<AstDirective>
    decreases list.len(),
{
    if list.len() == 0 {
        seq![]
    } else {
        let before = named(list.drop_last(), name);
        if list.last().name_text() == name {
            before.push(list.last())
        } else {
            before
        }
    }
}

/// What the directive at `at` adds to those spelled `name`.
pub proof fn lemma_named_step(list: Seq<AstDirective>, at: int, name: Seq<char>)
    requires
        0 <= at < list.len(),
    ensures
        named(list.take(at + 1), name) == (if list[at].name_text() == name {
            named(list.take(at), name).push(list[at])
        } else {
            named(list.take(at), name)
        }),
{
    assert(list.take(at + 1).drop_last() =~= list.take(at));
    assert(list.take(at + 1).last() == list[at]);
}

} // verus!
