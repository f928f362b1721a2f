//! How a directive of the syntax tree becomes a value.
use vstd::prelude::*;

use crate::parse::ast::AstDirective;
use crate::parse::builtin::DirectiveError;
use crate::parse::source::{SourceMap, SourceSpan};

verus! {

/// The block that a directive stands in.
#[derive(Debug, Clone, Copy, PartialEq, Eq, Structural)]
pub enum ConfigContext {
    Pishoo,
    Server,
    Location,
}

/// A directive, where it stands, and the sources that it was read from.
pub struct DirectiveInput<'a> {
    pub directive: &'a AstDirective,
    pub context: ConfigContext,
    pub source_map: &'a SourceMap,
}

/// A value that is read from one directive.
pub trait DirectiveValue: Sized {
    /// Why a directive does not give such a value.
    type Error;

    /// What reading a directive gives: the value that it spells, or what is wrong with it.
    spec fn reads(
        directive: AstDirective,
        sources: SourceMap,
        result: Result<Self, Self::Error>,
    ) -> bool;

    /// The place that a value of this type is said to come from.
    spec fn place(directive: AstDirective) -> SourceSpan;

    /// An error of this type among those of all directives.
    spec fn wrapped(error: Self::Error) -> DirectiveError;

    /// A directive gives a value or an error, never both.
    proof fn reads_one_way(
        directive: AstDirective,
        sources: SourceMap,
        value: Self,
        error: Self::Error,
    )
        ensures
            !(Self::reads(directive, sources, Ok(value)) && Self::reads(
                directive,
                sources,
                Err(error),
            )),
    ;

    /// Reads a directive.
    fn read(directive: &AstDirective, source_map: &SourceMap) -> (result: Result<
        Self,
        Self::Error,
    >)
        ensures
            Self::reads(*directive, *source_map, result),
    ;

    /// The place that a value of this type is said to come from.
    fn place_of(directive: &AstDirective) -> (span: SourceSpan)
        ensures
            span == Self::place(*directive),
    ;

    /// An error of this type among those of all directives.
    fn wrap(error: Self::Error) -> (wrapped: DirectiveError)
        ensures
            wrapped == Self::wrapped(error),
    ;

    /// Reads the directive of an input.
    fn try_from(input: &DirectiveInput<'_>) -> (result: Result<Self, Self::Error>)
        ensures
            Self::reads(*input.directive, *input.source_map, result),
    {
        Self::read(input.directive, input.source_map)
    }

    /// The place that the value of an input is said to come from.
    fn span(input: &DirectiveInput<'_>) -> (span: SourceSpan)
        ensures
            span == Self::place(*input.directive),
    {
        Self::place_of(input.directive)
    }
}

/// The place of the directive's first argument, or of the directive where it has none.
pub open spec fn first_place(directive: AstDirective) -> SourceSpan {
    if directive.args@.len() > 0 {
        directive.args@[0].span
    } else {
        directive.span
    }
}

/// An error on the number of arguments names the place of the directive, what was expected, and
/// how many there are.
pub open spec fn is_count_error(
    directive: AstDirective,
    span: SourceSpan,
    expected: Seq<char>,
    actual: usize,
    wanted: Seq<char>,
) -> bool {
    span == directive.span && expected == wanted && actual == directive.args@.len()
}

} // verus!
