//! Documents built from directives with what a registry knows of them.
use std::sync::Arc;

use vstd::prelude::*;

use crate::parse::ast::{literal_tree, AstBody, AstDirective, Spanned};
use crate::parse::builder::{document_place, document_span};
use crate::parse::builtin::DirectiveError;
use crate::parse::completion::{
    completes_location, completes_proxy, completes_server, finalize_location, finalize_proxy,
    finalize_server, BuildOptions,
};
use crate::parse::context::{ContextKey, ROOT};
use crate::parse::contract::{DirectiveShape, DuplicatePolicy, PayloadMode};
use crate::parse::document::{ConfigDocument, ConfigNode, NodeView};
use crate::parse::error::BuildDocumentError;
use crate::parse::finalize::FinalizeError;
use crate::parse::normalize::{normalize_slot_value, normalizes};
use crate::parse::registry::{
    ConfigRegistry, ContextFinalizer, DirectiveParser, DirectiveSpec, DirectiveView, RegistryView,
};
use crate::parse::source::{ConfigDocumentSourceMap, SourceMap};
use crate::parse::value::{data_place, place_as, read_data, reads_data, TypedValue, ValueKind};

verus! {

/// What reading a directive gave.
#[derive(Debug)]
pub enum ParsedDirective {
    /// A value of the block that the directive stands in.
    Slot(TypedValue),
    /// A value of the block that the directive opens.
    Payload(TypedValue),
    /// No value.
    Empty,
}

/// What reading a directive gives.
pub open spec fn parses(
    parser: DirectiveParser,
    directive: AstDirective,
    sources: SourceMap,
    result: Result<ParsedDirective, DirectiveError>,
) -> bool {
    match parser {
        DirectiveParser::Slot(kind) => match result {
            Ok(ParsedDirective::Slot(value)) => reads_data(
                kind,
                directive,
                sources,
                Ok(value.data()),
            ) && value.place() == place_as(kind, directive),
            Ok(_) => false,
            Err(error) => reads_data(kind, directive, sources, Err(error)),
        },
        DirectiveParser::Payload(kind) => match result {
            Ok(ParsedDirective::Payload(value)) => reads_data(
                kind,
                directive,
                sources,
                Ok(value.data()),
            ) && value.place() == place_as(kind, directive),
            Ok(_) => false,
            Err(error) => reads_data(kind, directive, sources, Err(error)),
        },
        DirectiveParser::Empty => result matches Ok(ParsedDirective::Empty),
    }
}

/// Whether a directive ends as its shape asks.
pub open spec fn fits(body: AstBody, shape: DirectiveShape) -> bool {
    match body {
        AstBody::Leaf { .. } => !(shape is ContextBlock),
        AstBody::Block { .. } => !(shape is Leaf),
    }
}

/// What putting a value into a block gives: the value is made absolute first, and then stands
/// behind those that are there, in their place, or nowhere.
pub open spec fn stores(
    spec: DirectiveView,
    before: NodeView,
    value: TypedValue,
    sources: SourceMap,
    result: Result<NodeView, BuildDocumentError>,
) -> bool {
    match result {
        Ok(after) => {
            let stored = after.slot(spec.name).last();
            &&& normalizes(value, sources, Ok(stored))
            &&& match spec.duplicate {
                DuplicatePolicy::Reject => before.slot(spec.name).len() == 0 && after
                    == before.with_slot(spec.name, stored),
                DuplicatePolicy::LastWins => after == before.with_only(spec.name, stored),
                DuplicatePolicy::Append => after == before.with_slot(spec.name, stored),
            }
        },
        Err(BuildDocumentError::NormalizeDirectiveValue { directive, span, source }) => directive@
            == spec.name && span == value.place() && normalizes(value, sources, Err(source)),
        Err(BuildDocumentError::DuplicateDirective { directive, first, duplicate }) => {
            &&& spec.duplicate == DuplicatePolicy::Reject
            &&& before.slot(spec.name).len() > 0
            &&& directive@ == spec.name
            &&& first == before.slot(spec.name)[0].place()
            &&& duplicate == value.place()
            &&& exists|stored: TypedValue| #[trigger] normalizes(value, sources, Ok(stored))
        },
        Err(_) => false,
    }
}

/// What completing a block gives.
pub open spec fn completes_by(
    finalizer: ContextFinalizer,
    node: NodeView,
    options: BuildOptions<'_>,
    result: Result<NodeView, FinalizeError>,
) -> bool {
    match finalizer {
        ContextFinalizer::Server => completes_server(node, options, result),
        ContextFinalizer::Location => completes_location(node, result),
        ContextFinalizer::Proxy => completes_proxy(node, result),
    }
}

/// What completing a block of a context gives.
pub open spec fn completes(
    registry: RegistryView,
    context: Seq<char>,
    options: BuildOptions<'_>,
    node: NodeView,
    result: Result<NodeView, BuildDocumentError>,
) -> bool {
    match registry.finalizer(context) {
        None => result matches Ok(after) && after == node,
        Some(finalizer) => match result {
            Ok(after) => completes_by(finalizer, node, options, Ok(after)),
            Err(BuildDocumentError::FinalizeContext { context: named, span, source }) => named@
                == context && span == node.span && completes_by(
                finalizer,
                node,
                options,
                Err(source),
            ),
            Err(_) => false,
        },
    }
}

/// The block that a directive opens, before anything inside it is read.
pub open spec fn opened(
    directive: AstDirective,
    context: Seq<char>,
    payload: PayloadMode,
    parsed: ParsedDirective,
) -> NodeView {
    let node = NodeView::empty(context, Some(literal_tree(directive.name)), directive.span);
    match parsed {
        ParsedDirective::Payload(value) if payload == PayloadMode::Parser => NodeView {
            payload: Some(value),
            ..node
        },
        _ => node,
    }
}

/// What may come of reading directives: a block or an error, whichever it is.
pub open spec fn is_outcome(result: Result<NodeView, BuildDocumentError>) -> bool {
    true
}

/// What a directive adds to the block that it stands in.
pub open spec fn adds(
    registry: RegistryView,
    sources: SourceMap,
    options: BuildOptions<'_>,
    context: Seq<char>,
    directive: AstDirective,
    before: NodeView,
    result: Result<NodeView, BuildDocumentError>,
) -> bool
    decreases directive, 1nat,
{
    match registry.directive(context, directive.name_text()) {
        None => result matches Err(BuildDocumentError::UnknownDirective { directive: named, span })
            && named@ == directive.name_text() && span == directive.name.span,
        Some(spec) => if !fits(directive.body, spec.shape) {
            result matches Err(
                BuildDocumentError::InvalidDirectiveShape { directive: named, span },
            ) && named@ == directive.name_text() && span == directive.span
        } else {
            ||| result matches Err(
                BuildDocumentError::DirectiveParse { directive: named, span, source },
            ) && named@ == directive.name_text() && span == directive.span && parses(
                spec.parser,
                directive,
                sources,
                Err(source),
            )
            ||| exists|parsed: ParsedDirective| #[trigger]
                parses(spec.parser, directive, sources, Ok(parsed)) && takes(
                    registry,
                    sources,
                    options,
                    spec,
                    directive,
                    parsed,
                    before,
                    result,
                )
        },
    }
}

/// What a directive that was read adds to the block that it stands in.
pub open spec fn takes(
    registry: RegistryView,
    sources: SourceMap,
    options: BuildOptions<'_>,
    spec: DirectiveView,
    directive: AstDirective,
    parsed: ParsedDirective,
    before: NodeView,
    result: Result<NodeView, BuildDocumentError>,
) -> bool
    decreases directive, 0nat,
{
    match spec.shape {
        DirectiveShape::ContextBlock { child_context, payload } => match directive.body {
            AstBody::Leaf { .. } => false,
            AstBody::Block { children, .. } => {
                let start = opened(directive, child_context.text(), payload, parsed);
                match result {
                    Ok(after) => {
                        let child = after.child(spec.name).last();
                        &&& after == before.with_child(spec.name, child)
                        &&& builds(
                            registry,
                            sources,
                            options,
                            child_context.text(),
                            children@,
                            start,
                            Ok(child@),
                        )
                    },
                    Err(error) => builds(
                        registry,
                        sources,
                        options,
                        child_context.text(),
                        children@,
                        start,
                        Err(error),
                    ),
                }
            },
        },
        _ => match parsed {
            ParsedDirective::Slot(value) => stores(spec, before, value, sources, result),
            _ => result matches Ok(after) && after == before,
        },
    }
}

/// What directives make of a block, one after the other; the first that is at fault ends it.
pub open spec fn runs(
    registry: RegistryView,
    sources: SourceMap,
    options: BuildOptions<'_>,
    context: Seq<char>,
    list: Seq<AstDirective>,
    start: NodeView,
    result: Result<NodeView, BuildDocumentError>,
) -> bool
    decreases list, 0nat,
{
    if list.len() == 0 {
        result matches Ok(node) && node == start
    } else {
        exists|next: Result<NodeView, BuildDocumentError>| #[trigger]
            is_outcome(next) && adds(registry, sources, options, context, list[0], start, next)
                && match next {
                Ok(node) => runs(registry, sources, options, context, list.skip(1), node, result),
                Err(error) => result matches Err(same) && same == error,
            }
    }
}

/// What a block with the given directives is built to: all of them are read, and then the block is
/// completed.
pub open spec fn builds(
    registry: RegistryView,
    sources: SourceMap,
    options: BuildOptions<'_>,
    context: Seq<char>,
    list: Seq<AstDirective>,
    start: NodeView,
    result: Result<NodeView, BuildDocumentError>,
) -> bool
    decreases list, 1nat,
{
    exists|read: Result<NodeView, BuildDocumentError>| #[trigger]
        is_outcome(read) && runs(registry, sources, options, context, list, start, read)
            && match read {
            Ok(node) => completes(registry, context, options, node, result),
            Err(error) => result matches Err(same) && same == error,
        }
}

proof fn lemma_single_step(
    registry: RegistryView,
    sources: SourceMap,
    options: BuildOptions<'_>,
    context: Seq<char>,
    directive: AstDirective,
    before: NodeView,
    after: NodeView,
    name: Seq<char>,
)
    requires
        registry.wf(),
        registry.directive(context, name) matches Some(spec) && spec.duplicate
            == DuplicatePolicy::Reject,
        before.slot(name).len() <= 1,
        adds(registry, sources, options, context, directive, before, Ok(after)),
    ensures
        after.slot(name).len() <= 1,
{
    let spec = registry.directive(context, directive.name_text())->0;
    assert(spec.name == directive.name_text());
    let parsed = choose|parsed: ParsedDirective| #[trigger]
        parses(spec.parser, directive, sources, Ok(parsed)) && takes(
            registry,
            sources,
            options,
            spec,
            directive,
            parsed,
            before,
            Ok(after),
        );
    assert(takes(registry, sources, options, spec, directive, parsed, before, Ok(after)));
}

/// A directive that may not stand in a block twice has at most one value in it, however often it
/// was written.
pub proof fn rejected_directive_stays_single(
    registry: RegistryView,
    sources: SourceMap,
    options: BuildOptions<'_>,
    context: Seq<char>,
    list: Seq<AstDirective>,
    start: NodeView,
    after: NodeView,
    name: Seq<char>,
)
    requires
        registry.wf(),
        registry.directive(context, name) matches Some(spec) && spec.duplicate
            == DuplicatePolicy::Reject,
        start.slot(name).len() <= 1,
        runs(registry, sources, options, context, list, start, Ok(after)),
    ensures
        after.slot(name).len() <= 1,
    decreases list.len(),
{
    if list.len() > 0 {
        let next = choose|next: Result<NodeView, BuildDocumentError>| #[trigger]
            is_outcome(next) && adds(registry, sources, options, context, list[0], start, next)
                && match next {
                Ok(node) => runs(
                    registry,
                    sources,
                    options,
                    context,
                    list.skip(1),
                    node,
                    Ok(after),
                ),
                Err(error) => false,
            };
        lemma_single_step(
            registry,
            sources,
            options,
            context,
            list[0],
            start,
            next->Ok_0,
            name,
        );
        rejected_directive_stays_single(
            registry,
            sources,
            options,
            context,
            list.skip(1),
            next->Ok_0,
            after,
            name,
        );
    }
}

/// A document with a directive that is not known in its context is not built.
pub proof fn unknown_directive_stops(
    registry: RegistryView,
    sources: SourceMap,
    options: BuildOptions<'_>,
    context: Seq<char>,
    list: Seq<AstDirective>,
    start: NodeView,
    after: NodeView,
    at: int,
)
    requires
        0 <= at < list.len(),
        registry.directive(context, list[at].name_text()) is None,
    ensures
        !runs(registry, sources, options, context, list, start, Ok(after)),
    decreases at,
{
    if runs(registry, sources, options, context, list, start, Ok(after)) {
        let next = choose|next: Result<NodeView, BuildDocumentError>| #[trigger]
            is_outcome(next) && adds(registry, sources, options, context, list[0], start, next)
                && match next {
                Ok(node) => runs(
                    registry,
                    sources,
                    options,
                    context,
                    list.skip(1),
                    node,
                    Ok(after),
                ),
                Err(error) => false,
            };
        if at > 0 {
            assert(list.skip(1)[at - 1] == list[at]);
            unknown_directive_stops(
                registry,
                sources,
                options,
                context,
                list.skip(1),
                next->Ok_0,
                after,
                at - 1,
            );
        }
    }
}

fn apply_shape(directive: &AstDirective, spec: &DirectiveSpec) -> (fitting: bool)
    ensures
        fitting == fits(directive.body, spec.shape),
{
    match (&directive.body, spec.shape) {
        (AstBody::Leaf { .. }, DirectiveShape::Leaf | DirectiveShape::RawBlock) => true,
        (
            AstBody::Block { .. },
            DirectiveShape::ContextBlock { .. } | DirectiveShape::RawBlock,
        ) => true,
        _ => false,
    }
}

fn parse_directive(parser: DirectiveParser, directive: &AstDirective, source_map: &SourceMap) -> (
result: Result<ParsedDirective, DirectiveError>)
    ensures
        parses(parser, *directive, *source_map, result),
{
    match parser {
        DirectiveParser::Slot(kind) => match read_data(kind, directive, source_map) {
            Ok(data) => Ok(
                ParsedDirective::Slot(TypedValue::of_data(data, data_place(kind, directive))),
            ),
            Err(error) => Err(error),
        },
        DirectiveParser::Payload(kind) => match read_data(kind, directive, source_map) {
            Ok(data) => Ok(
                ParsedDirective::Payload(TypedValue::of_data(data, data_place(kind, directive))),
            ),
            Err(error) => Err(error),
        },
        DirectiveParser::Empty => Ok(ParsedDirective::Empty),
    }
}

fn insert_slot(
    node: &mut ConfigNode,
    spec: &DirectiveSpec,
    value: TypedValue,
    source_map: &SourceMap,
) -> (result: Result<(), BuildDocumentError>)
    ensures
        match result {
            Ok(_) => stores(spec@, old(node)@, value, *source_map, Ok(final(node)@)),
            Err(error) => stores(spec@, old(node)@, value, *source_map, Err(error)),
        },
{
    let span = value.span();
    let name = spec.name.as_str();
    let ghost given = value;
    let value = match normalize_slot_value(value, source_map) {
        Ok(value) => value,
        Err(source) => {
            return Err(
                BuildDocumentError::NormalizeDirectiveValue {
                    directive: name.to_owned(),
                    span,
                    source,
                },
            );
        },
    };
    assert(normalizes(given, *source_map, Ok(value)));
    match spec.duplicate {
        DuplicatePolicy::Reject => {
            let values = node.get_all_untyped(name);
            if values.len() > 0 {
                return Err(
                    BuildDocumentError::DuplicateDirective {
                        directive: name.to_owned(),
                        first: values[0].span(),
                        duplicate: value.span(),
                    },
                );
            }
            node.insert_slot(name, value);
        },
        DuplicatePolicy::LastWins => {
            node.replace_slot(name, value);
        },
        DuplicatePolicy::Append => {
            node.insert_slot(name, value);
        },
    }
    Ok(())
}

impl ConfigRegistry {
    fn finalize_local(
        &self,
        node: &mut ConfigNode,
        context: ContextKey,
        options: &BuildOptions<'_>,
    ) -> (result: Result<(), BuildDocumentError>)
        ensures
            match result {
                Ok(_) => completes(
                    self@,
                    context.text(),
                    *options,
                    old(node)@,
                    Ok(final(node)@),
                ),
                Err(error) => completes(self@, context.text(), *options, old(node)@, Err(error)),
            },
    {
        let span = node.span;
        let finalizer = match self.context_finalizer(context) {
            Some(finalizer) => finalizer,
            None => {
                return Ok(());
            },
        };
        let done = match finalizer {
            ContextFinalizer::Server => finalize_server(node, options),
            ContextFinalizer::Location => finalize_location(node),
            ContextFinalizer::Proxy => finalize_proxy(node),
        };
        match done {
            Ok(_) => Ok(()),
            Err(source) => Err(
                BuildDocumentError::FinalizeContext { context: context.0, span, source },
            ),
        }
    }

    fn build_directive(
        &self,
        source_map: &SourceMap,
        node: &mut ConfigNode,
        context: ContextKey,
        directive: &AstDirective,
        options: &BuildOptions<'_>,
    ) -> (result: Result<(), BuildDocumentError>)
        ensures
            match result {
                Ok(_) => adds(
                    self@,
                    *source_map,
                    *options,
                    context.text(),
                    *directive,
                    old(node)@,
                    Ok(final(node)@),
                ),
                Err(error) => adds(
                    self@,
                    *source_map,
                    *options,
                    context.text(),
                    *directive,
                    old(node)@,
                    Err(error),
                ),
            },
        decreases *directive, 1nat,
    {
        let spec = match self.directive_spec(context, directive.name.value.as_str()) {
            Some(spec) => spec,
            None => {
                return Err(
                    BuildDocumentError::UnknownDirective {
                        directive: directive.name.value.clone(),
                        span: directive.name.span,
                    },
                );
            },
        };
        if !apply_shape(directive, spec) {
            return Err(
                BuildDocumentError::InvalidDirectiveShape {
                    directive: directive.name.value.clone(),
                    span: directive.span,
                },
            );
        }
        let parsed = match parse_directive(spec.parser, directive, source_map) {
            Ok(parsed) => parsed,
            Err(source) => {
                return Err(
                    BuildDocumentError::DirectiveParse {
                        directive: directive.name.value.clone(),
                        span: directive.span,
                        source,
                    },
                );
            },
        };
        assert(parses(spec@.parser, *directive, *source_map, Ok(parsed)));
        self.take_parsed(source_map, node, spec, directive, parsed, options)
    }

    fn take_parsed(
        &self,
        source_map: &SourceMap,
        node: &mut ConfigNode,
        spec: &DirectiveSpec,
        directive: &AstDirective,
        parsed: ParsedDirective,
        options: &BuildOptions<'_>,
    ) -> (result: Result<(), BuildDocumentError>)
        requires
            fits(directive.body, spec.shape),
        ensures
            match result {
                Ok(_) => takes(
                    self@,
                    *source_map,
                    *options,
                    spec@,
                    *directive,
                    parsed,
                    old(node)@,
                    Ok(final(node)@),
                ),
                Err(error) => takes(
                    self@,
                    *source_map,
                    *options,
                    spec@,
                    *directive,
                    parsed,
                    old(node)@,
                    Err(error),
                ),
            },
        decreases *directive, 0nat,
    {
        match spec.shape {
            DirectiveShape::Leaf | DirectiveShape::RawBlock => match parsed {
                ParsedDirective::Slot(value) => insert_slot(node, spec, value, source_map),
                _ => Ok(()),
            },
            DirectiveShape::ContextBlock { child_context, payload } => {
                let name = Spanned::new(directive.name.value.clone(), directive.name.span);
                let mut child = ConfigNode::new(child_context, Some(name), directive.span);
                if payload == PayloadMode::Parser {
                    match parsed {
                        ParsedDirective::Payload(value) => child.set_payload(value),
                        _ => {},
                    }
                }
                match &directive.body {
                    AstBody::Leaf { .. } => Ok(()),
                    AstBody::Block { children, .. } => {
                        assert(child@ == opened(
                            *directive,
                            child_context.text(),
                            payload,
                            parsed,
                        ));
                        match self.build_into(
                            source_map,
                            &mut child,
                            child_context,
                            children,
                            options,
                        ) {
                            Ok(_) => {
                                node.insert_child(spec.name.as_str(), Arc::new(child));
                                Ok(())
                            },
                            Err(error) => Err(error),
                        }
                    },
                }
            },
        }
    }

    /// Reads directives into a block and completes it.
    pub fn build_into(
        &self,
        source_map: &SourceMap,
        node: &mut ConfigNode,
        context: ContextKey,
        directives: &Vec<AstDirective>,
        options: &BuildOptions<'_>,
    ) -> (result: Result<(), BuildDocumentError>)
        ensures
            match result {
                Ok(_) => builds(
                    self@,
                    *source_map,
                    *options,
                    context.text(),
                    directives@,
                    old(node)@,
                    Ok(final(node)@),
                ),
                Err(error) => builds(
                    self@,
                    *source_map,
                    *options,
                    context.text(),
                    directives@,
                    old(node)@,
                    Err(error),
                ),
            },
            self@.wf(),
        decreases directives@, 1nat,
    {
        self.contract();
        let ghost start = node@;
        let ghost registry = self@;
        let ghost sources = *source_map;
        let ghost known = *options;
        let ghost place = context.text();
        let ghost list = directives@;
        let mut i: usize = 0;
        assert(list.skip(0) =~= list);
        while i < directives.len()
            invariant
                i <= directives@.len(),
                list == directives@,
                registry == self@,
                registry.wf(),
                sources == *source_map,
                known == *options,
                place == context.text(),
                start == old(node)@,
                forall|read: Result<NodeView, BuildDocumentError>| #[trigger]
                    runs(registry, sources, known, place, list.skip(i as int), node@, read)
                        ==> runs(registry, sources, known, place, list, start, read),
            decreases directives@.len() - i,
        {
            let ghost before = node@;
            let ghost rest = list.skip(i as int);
            proof {
                assert(rest[0] == list[i as int]);
                assert(rest.skip(1) =~= list.skip(i + 1));
                assert(decreases_to!(directives@ => directives@[i as int]));
            }
            match self.build_directive(source_map, node, context, &directives[i], options) {
                Ok(_) => {
                    proof {
                        let next = Ok::<NodeView, BuildDocumentError>(node@);
                        assert(is_outcome(next));
                        assert(adds(registry, sources, known, place, rest[0], before, next));
                        assert forall|read: Result<NodeView, BuildDocumentError>| #[trigger]
                            runs(
                                registry,
                                sources,
                                known,
                                place,
                                list.skip(i + 1),
                                node@,
                                read,
                            ) implies runs(
                            registry,
                            sources,
                            known,
                            place,
                            list,
                            start,
                            read,
                        ) by {
                            assert(runs(registry, sources, known, place, rest, before, read));
                        }
                    }
                },
                Err(error) => {
                    proof {
                        let next = Err::<NodeView, BuildDocumentError>(error);
                        assert(is_outcome(next));
                        assert(adds(registry, sources, known, place, rest[0], before, next));
                        assert(runs(registry, sources, known, place, rest, before, next));
                        assert(runs(registry, sources, known, place, list, start, next));
                    }
                    return Err(error);
                },
            }
            i += 1;
        }
        proof {
            let read = Ok::<NodeView, BuildDocumentError>(node@);
            assert(is_outcome(read));
            assert(runs(registry, sources, known, place, list.skip(i as int), node@, read));
            assert(runs(registry, sources, known, place, list, start, read));
        }
        self.finalize_local(node, context, options)
    }

    /// Builds a document.
    pub fn build(
        &self,
        source_map: Arc<ConfigDocumentSourceMap>,
        directives: &Vec<AstDirective>,
        options: BuildOptions<'_>,
    ) -> (result: Result<ConfigDocument, BuildDocumentError>)
        ensures
            match result {
                Ok(document) => document.source_map == source_map && builds(
                    self@,
                    source_map.sources(),
                    options,
                    ROOT@,
                    directives@,
                    NodeView::empty(ROOT@, None, document_place(directives@)),
                    Ok(document.root@),
                ),
                Err(error) => builds(
                    self@,
                    source_map.sources(),
                    options,
                    ROOT@,
                    directives@,
                    NodeView::empty(ROOT@, None, document_place(directives@)),
                    Err(error),
                ),
            },
            self@.wf(),
    {
        let mut root = ConfigNode::new(ContextKey(ROOT), None, document_span(directives));
        match self.build_into(
            source_map.source_map(),
            &mut root,
            ContextKey(ROOT),
            directives,
            &options,
        ) {
            Ok(_) => Ok(ConfigDocument::new(source_map, Arc::new(root))),
            Err(error) => Err(error),
        }
    }
}

/// A directive touches only what has its name in the block that it stands in.
pub proof fn directives_touch_their_own_name(
    registry: RegistryView,
    sources: SourceMap,
    options: BuildOptions<'_>,
    context: Seq<char>,
    directive: AstDirective,
    before: NodeView,
    after: NodeView,
    other: Seq<char>,
)
    requires
        registry.wf(),
        adds(registry, sources, options, context, directive, before, Ok(after)),
        other != directive.name_text(),
    ensures
        after.slot(other) == before.slot(other),
        after.child(other) == before.child(other),
        after.payload == before.payload,
        after.context == before.context,
        after.span == before.span,
        registry.directive(context, directive.name_text()) is Some,
{
    let spec = registry.directive(context, directive.name_text())->0;
    assert(spec.name == directive.name_text());
    let parsed = choose|parsed: ParsedDirective| #[trigger]
        parses(spec.parser, directive, sources, Ok(parsed)) && takes(
            registry,
            sources,
            options,
            spec,
            directive,
            parsed,
            before,
            Ok(after),
        );
    assert(takes(registry, sources, options, spec, directive, parsed, before, Ok(after)));
}

/// A directive without a block of its own gives a value: one more where doubles are kept, the only
/// one where the last counts or where doubles are refused. It is the value that the directive is read
/// as, made absolute.
pub proof fn values_go_where_doubles_go(
    registry: RegistryView,
    sources: SourceMap,
    options: BuildOptions<'_>,
    context: Seq<char>,
    directive: AstDirective,
    spec: DirectiveView,
    kind: ValueKind,
    before: NodeView,
    after: NodeView,
)
    requires
        registry.wf(),
        registry.directive(context, directive.name_text()) == Some(spec),
        spec.shape !is ContextBlock,
        spec.parser == DirectiveParser::Slot(kind),
        adds(registry, sources, options, context, directive, before, Ok(after)),
    ensures
        ({
            let name = directive.name_text();
            let earlier = before.slot(name);
            let values = after.slot(name);
            &&& spec.duplicate is Append ==> values.len() == earlier.len() + 1 && forall|i: int|
                0 <= i < earlier.len() ==> #[trigger] values[i] == earlier[i]
            &&& spec.duplicate is LastWins ==> values.len() == 1
            &&& spec.duplicate is Reject ==> earlier.len() == 0 && values.len() == 1
            &&& exists|read: TypedValue| #[trigger]
                normalizes(read, sources, Ok(values.last())) && reads_data(
                    kind,
                    directive,
                    sources,
                    Ok(read.data()),
                )
            &&& after.child(name) == before.child(name)
        }),
{
    assert(spec.name == directive.name_text());
    let parsed = choose|parsed: ParsedDirective| #[trigger]
        parses(spec.parser, directive, sources, Ok(parsed)) && takes(
            registry,
            sources,
            options,
            spec,
            directive,
            parsed,
            before,
            Ok(after),
        );
    assert(takes(registry, sources, options, spec, directive, parsed, before, Ok(after)));
    let read = parsed->Slot_0;
    assert(stores(spec, before, read, sources, Ok(after)));
    let stored = after.slot(spec.name).last();
    assert(normalizes(read, sources, Ok(stored)));
    assert(before.with_slot(spec.name, stored).slot(spec.name) =~= before.slot(spec.name).push(
        stored,
    ));
    assert(before.with_only(spec.name, stored).slot(spec.name) =~= seq![stored]);
}

/// A directive with a block of its own gives one more block, behind those of its name, in the context
/// that it opens.
pub proof fn blocks_are_kept_in_order(
    registry: RegistryView,
    sources: SourceMap,
    options: BuildOptions<'_>,
    context: Seq<char>,
    directive: AstDirective,
    spec: DirectiveView,
    before: NodeView,
    after: NodeView,
)
    requires
        registry.wf(),
        registry.directive(context, directive.name_text()) == Some(spec),
        spec.shape is ContextBlock,
        adds(registry, sources, options, context, directive, before, Ok(after)),
    ensures
        ({
            let name = directive.name_text();
            let earlier = before.child(name);
            let blocks = after.child(name);
            let inner = spec.shape->child_context.text();
            &&& directive.body is Block
            &&& blocks.len() == earlier.len() + 1
            &&& forall|i: int| 0 <= i < earlier.len() ==> #[trigger] blocks[i] == earlier[i]
            &&& after.slot(name) == before.slot(name)
            &&& exists|start: NodeView| #[trigger]
                builds(
                    registry,
                    sources,
                    options,
                    inner,
                    directive.body->children@,
                    start,
                    Ok(blocks.last()@),
                ) && start.context == inner && start.span == directive.span && start.slots
                    == Map::<Seq<char>, Seq<TypedValue>>::empty()
        }),
{
    assert(spec.name == directive.name_text());
    let parsed = choose|parsed: ParsedDirective| #[trigger]
        parses(spec.parser, directive, sources, Ok(parsed)) && takes(
            registry,
            sources,
            options,
            spec,
            directive,
            parsed,
            before,
            Ok(after),
        );
    assert(takes(registry, sources, options, spec, directive, parsed, before, Ok(after)));
    let inner = spec.shape->child_context;
    let start = opened(directive, inner.text(), spec.shape->payload, parsed);
    let child = after.child(spec.name).last();
    assert(after == before.with_child(spec.name, child));
    assert(before.with_child(spec.name, child).child(spec.name) =~= before.child(spec.name).push(
        child,
    ));
    assert(builds(
        registry,
        sources,
        options,
        inner.text(),
        directive.body->children@,
        start,
        Ok(child@),
    ));
}

/// A directive that opens a block must have one, and one that holds only words must not.
pub proof fn directives_end_as_their_shape_asks(
    registry: RegistryView,
    sources: SourceMap,
    options: BuildOptions<'_>,
    context: Seq<char>,
    directive: AstDirective,
    spec: DirectiveView,
    before: NodeView,
    result: Result<NodeView, BuildDocumentError>,
)
    requires
        registry.directive(context, directive.name_text()) == Some(spec),
        adds(registry, sources, options, context, directive, before, result),
    ensures
        directive.body is Leaf && spec.shape is ContextBlock ==> result is Err,
        directive.body is Block && spec.shape is Leaf ==> result is Err,
{
}

} // verus!
