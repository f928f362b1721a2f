//! Documents as trees of nodes whose directives are found by name.
use std::sync::Arc;

use vstd::prelude::*;

use crate::parse::ast::{literal_tree, Spanned};
use crate::parse::context::ContextKey;
use crate::parse::domain::ConfigDocumentId;
use crate::parse::error::ConfigQueryError;
use crate::parse::source::{ConfigDocumentSourceMap, SourceSpan};
use crate::parse::value::{ConfigValue, TypedValue};
use crate::table::{holds_each, list_in, names_each, slice_views, Lists};
use crate::text::way_views;

verus! {

/// A block of a document: what its directives say, and the blocks inside it.
#[derive(Debug)]
pub struct ConfigNode {
    pub context: ContextKey,
    pub name: Option<Spanned<String>>,
    pub span: SourceSpan,
    pub payload: Option<TypedValue>,
    pub slots: Lists<TypedValue>,
    pub children: Option<Lists<Arc<ConfigNode>>>,
}

/// A block of a document, with names as characters and directives and blocks by name.
#[verifier::ext_equal]
pub struct NodeView {
    pub context: Seq<char>,
    pub name: Option<Spanned<Seq<char>>>,
    pub span: SourceSpan,
    pub payload: Option<TypedValue>,
    pub slots: Map<Seq<char>, Seq<TypedValue>>,
    pub children: Map<Seq<char>, Seq<Arc<ConfigNode>>>,
}

/// A name with its place, as characters.
pub open spec fn name_view(name: Option<Spanned<String>>) -> Option<Spanned<Seq<char>>> {
    match name {
        Some(name) => Some(literal_tree(name)),
        None => None,
    }
}

/// Blocks by name, where there are any.
pub open spec fn child_lists(children: Option<Lists<Arc<ConfigNode>>>) -> Map<
    Seq<char>,
    Seq<Arc<ConfigNode>>,
> {
    match children {
        Some(lists) => lists@,
        None => Map::empty(),
    }
}

impl View for ConfigNode {
    type V = NodeView;

    open spec fn view(&self) -> NodeView {
        NodeView {
            context: self.context.text(),
            name: name_view(self.name),
            span: self.span,
            payload: self.payload,
            slots: self.slots@,
            children: child_lists(self.children),
        }
    }
}

/// The values of the directives with one name, in order.
#[derive(Debug, Clone)]
pub struct ConfigSlot {
    pub values: Vec<TypedValue>,
}

impl NodeView {
    /// A node without contents.
    pub open spec fn empty(
        context: Seq<char>,
        name: Option<Spanned<Seq<char>>>,
        span: SourceSpan,
    ) -> NodeView {
        NodeView {
            context,
            name,
            span,
            payload: None,
            slots: Map::empty(),
            children: Map::empty(),
        }
    }

    /// What the directives with the given name say, in order.
    pub open spec fn slot(self, name: Seq<char>) -> Seq<TypedValue> {
        list_in(self.slots, name)
    }

    /// The blocks with the given name, in order.
    pub open spec fn child(self, name: Seq<char>) -> Seq<Arc<ConfigNode>> {
        list_in(self.children, name)
    }

    /// The node with one more value for a directive.
    pub open spec fn with_slot(self, name: Seq<char>, value: TypedValue) -> NodeView {
        NodeView { slots: self.slots.insert(name, self.slot(name).push(value)), ..self }
    }

    /// The node with one value in place of all that a directive had.
    pub open spec fn with_only(self, name: Seq<char>, value: TypedValue) -> NodeView {
        NodeView { slots: self.slots.insert(name, seq![value]), ..self }
    }

    /// The node with one more block.
    pub open spec fn with_child(self, name: Seq<char>, child: Arc<ConfigNode>) -> NodeView {
        NodeView { children: self.children.insert(name, self.child(name).push(child)), ..self }
    }
}

/// An error for a value that is not of the type that was asked for.
pub open spec fn is_type_mismatch<T: ConfigValue>(
    value: TypedValue,
    name: Seq<char>,
    error: ConfigQueryError,
) -> bool {
    error matches ConfigQueryError::TypeMismatch { directive, expected, actual, span }
        && directive@ == name && expected@ == T::kind().text() && actual@
        == value.data().kind().text() && span == value.place()
}

/// What asking for the one value of a directive gives.
pub open spec fn gets<T: ConfigValue>(
    values: Seq<TypedValue>,
    name: Seq<char>,
    result: Result<Option<T>, ConfigQueryError>,
) -> bool {
    if values.len() == 0 {
        result matches Ok(None)
    } else if values.len() > 1 {
        result matches Err(ConfigQueryError::MultipleValues { directive, span }) && directive@
            == name && span == values[1].place()
    } else {
        match T::in_data(values[0].data()) {
            Some(value) => result matches Ok(Some(found)) && found == value,
            None => result matches Err(error) && is_type_mismatch::<T>(values[0], name, error),
        }
    }
}

/// A directive that is not there is an error where it is required.
pub open spec fn is_missing(name: Seq<char>, place: SourceSpan, error: ConfigQueryError) -> bool {
    error matches ConfigQueryError::MissingRequired { directive, span } && directive@ == name && span
        == place
}

/// What requiring the one value of a directive gives.
pub open spec fn requires_value<T: ConfigValue>(
    node: NodeView,
    name: Seq<char>,
    result: Result<T, ConfigQueryError>,
) -> bool {
    if node.slot(name).len() == 0 {
        result matches Err(error) && is_missing(name, node.span, error)
    } else {
        match result {
            Ok(value) => gets::<T>(node.slot(name), name, Ok(Some(value))),
            Err(error) => gets::<T>(node.slot(name), name, Err(error)),
        }
    }
}

/// What asking for all values of a directive gives.
pub open spec fn gets_all<T: ConfigValue>(
    values: Seq<TypedValue>,
    name: Seq<char>,
    result: Result<Seq<&T>, ConfigQueryError>,
) -> bool {
    match result {
        Ok(list) => {
            &&& list.len() == values.len()
            &&& forall|i: int|
                0 <= i < values.len() ==> T::in_data((#[trigger] values[i]).data()) == Some(*list[i])
        },
        Err(error) => exists|at: int|
            {
                &&& 0 <= at < values.len()
                &&& forall|i: int| 0 <= i < at ==> T::in_data((#[trigger] values[i]).data()) is Some
                &&& T::in_data(values[at].data()) is None
                &&& #[trigger] is_type_mismatch::<T>(values[at], name, error)
            },
    }
}

/// What asking for a directive in a node, and then in those around it, gives: the nearest node
/// that has the directive answers.
pub open spec fn inherits<T: ConfigValue>(
    chain: Seq<NodeView>,
    name: Seq<char>,
    result: Result<Option<T>, ConfigQueryError>,
) -> bool
    decreases chain.len(),
{
    if chain.len() == 0 {
        result matches Ok(None)
    } else if chain[0].slot(name).len() > 0 {
        gets::<T>(chain[0].slot(name), name, result)
    } else {
        inherits::<T>(chain.skip(1), name, result)
    }
}

/// The block at the end of a way, and then the blocks around it from the inside out; nothing where
/// the way leads nowhere.
pub open spec fn walk(root: NodeView, way: Seq<(Seq<char>, int)>) -> Option<Seq<NodeView>>
    decreases way.len(),
{
    if way.len() == 0 {
        Some(seq![root])
    } else {
        let (name, at) = way.last();
        match walk(root, way.drop_last()) {
            Some(chain) => if 0 <= at < chain[0].child(name).len() {
                Some(seq![chain[0].child(name)[at]@] + chain)
            } else {
                None
            },
            None => None,
        }
    }
}

proof fn lemma_lost_way(root: NodeView, way: Seq<(Seq<char>, int)>, count: int)
    requires
        0 <= count <= way.len(),
        walk(root, way.take(count)) is None,
    ensures
        walk(root, way) is None,
    decreases way.len(),
{
    if count == way.len() {
        assert(way.take(count) =~= way);
    } else {
        assert(way.drop_last().take(count) =~= way.take(count));
        lemma_lost_way(root, way.drop_last(), count);
    }
}

/// How a node without a name is called in messages.
pub open spec fn payload_name(node: NodeView) -> Seq<char> {
    match node.name {
        Some(name) => name.value,
        None => "<payload>"@,
    }
}

/// What asking for the arguments of a block gives.
pub open spec fn gets_payload<T: ConfigValue>(
    node: NodeView,
    result: Result<Option<T>, ConfigQueryError>,
) -> bool {
    match node.payload {
        None => result matches Ok(None),
        Some(value) => match T::in_data(value.data()) {
            Some(payload) => result matches Ok(Some(found)) && found == payload,
            None => result matches Err(error) && is_type_mismatch::<T>(
                value,
                payload_name(node),
                error,
            ),
        },
    }
}

/// The views of a list of nodes.
pub open spec fn node_views(nodes: Seq<&ConfigNode>) -> Seq<NodeView> {
    nodes.map_values(|node: &ConfigNode| node@)
}

/// A result of a query, with the value itself in place of a reference to it.
pub open spec fn found<T>(result: Result<Option<&T>, ConfigQueryError>) -> Result<
    Option<T>,
    ConfigQueryError,
> {
    match result {
        Ok(Some(value)) => Ok(Some(*value)),
        Ok(None) => Ok(None),
        Err(error) => Err(error),
    }
}

fn type_mismatch<T: ConfigValue>(value: &TypedValue, name: &str) -> (error: ConfigQueryError)
    ensures
        is_type_mismatch::<T>(*value, name@, error),
{
    ConfigQueryError::TypeMismatch {
        directive: name.to_owned(),
        expected: T::type_kind().name(),
        actual: value.kind_name(),
        span: value.span(),
    }
}

impl ConfigNode {
    pub fn new(context: ContextKey, name: Option<Spanned<String>>, span: SourceSpan) -> (node: Self)
        ensures
            node@ == NodeView::empty(context.text(), name_view(name), span),
    {
        ConfigNode {
            context,
            name,
            span,
            payload: None,
            slots: Lists::new(),
            children: None,
        }
    }

    /// Adds a value for a directive.
    pub fn insert_slot(&mut self, name: &'static str, value: TypedValue)
        ensures
            final(self)@ == old(self)@.with_slot(name@, value),
    {
        self.slots.push(name, value);
    }

    /// Puts a value in place of all that a directive had.
    pub fn replace_slot(&mut self, name: &'static str, value: TypedValue)
        ensures
            final(self)@ == old(self)@.with_only(name@, value),
    {
        self.slots.replace(name, value);
    }

    /// All values of a directive, whatever their type.
    pub fn get_all_untyped(&self, name: &str) -> (values: &[TypedValue])
        ensures
            values@ == self@.slot(name@),
    {
        match self.slots.get(name) {
            Some(values) => values.as_slice(),
            None => &[],
        }
    }

    /// What the directives with the given name say, where there are any.
    pub fn config_slot(&self, name: &str) -> (slot: Option<ConfigSlot>)
        ensures
            match slot {
                Some(slot) => self@.slots.contains_key(name@) && slot.values@ == self@.slot(name@),
                None => !self@.slots.contains_key(name@),
            },
    {
        let held = match self.slots.get(name) {
            Some(held) => held,
            None => {
                return None;
            },
        };
        let mut values: Vec<TypedValue> = Vec::new();
        let mut i: usize = 0;
        while i < held.len()
            invariant
                i <= held@.len(),
                values@ == held@.take(i as int),
            decreases held@.len() - i,
        {
            values.push(held[i].clone());
            assert(held@.take(i + 1) =~= held@.take(i as int).push(held@[i as int]));
            i += 1;
        }
        assert(held@.take(i as int) =~= held@);
        Some(ConfigSlot { values })
    }

    /// Adds a block.
    pub fn insert_child(&mut self, name: &'static str, child: Arc<ConfigNode>)
        ensures
            final(self)@ == old(self)@.with_child(name@, child),
    {
        let mut lists = match self.children.take() {
            Some(lists) => lists,
            None => Lists::new(),
        };
        lists.push(name, child);
        self.children = Some(lists);
    }

    /// The blocks, those of one name together, the names in any order.
    pub fn child_groups(&self) -> (groups: Vec<&[Arc<ConfigNode>]>)
        ensures
            holds_each(self@.children, slice_views(groups@)),
    {
        match &self.children {
            Some(lists) => lists.groups(),
            None => {
                let groups: Vec<&[Arc<ConfigNode>]> = Vec::new();
                assert(names_each(self@.children, slice_views(groups@), seq![]));
                groups
            },
        }
    }

    pub fn set_payload(&mut self, payload: TypedValue)
        ensures
            final(self)@ == (NodeView { payload: Some(payload), ..old(self)@ }),
    {
        self.payload = Some(payload);
    }

    /// The one value of a directive.
    pub fn get<T: ConfigValue>(&self, name: &str) -> (result: Result<
        Option<&T>,
        ConfigQueryError,
    >)
        ensures
            gets::<T>(self@.slot(name@), name@, found(result)),
    {
        let values = match self.slots.get(name) {
            Some(values) => values,
            None => {
                return Ok(None);
            },
        };
        if values.len() > 1 {
            return Err(
                ConfigQueryError::MultipleValues {
                    directive: name.to_owned(),
                    span: values[1].span(),
                },
            );
        }
        match values[0].downcast::<T>() {
            Some(value) => Ok(Some(value)),
            None => Err(type_mismatch::<T>(&values[0], name)),
        }
    }

    /// The one value of a directive and the place that it comes from.
    pub fn get_with_span<T: ConfigValue>(&self, name: &str) -> (result: Result<
        Option<(&T, SourceSpan)>,
        ConfigQueryError,
    >)
        ensures
            match result {
                Ok(Some((value, span))) => gets::<T>(self@.slot(name@), name@, Ok(Some(*value)))
                    && span == self@.slot(name@)[0].place(),
                Ok(None) => gets::<T>(self@.slot(name@), name@, Ok(None)),
                Err(error) => gets::<T>(self@.slot(name@), name@, Err(error)),
            },
    {
        match self.get::<T>(name) {
            Ok(Some(value)) => match self.slots.get(name) {
                Some(values) => Ok(Some((value, values[0].span()))),
                None => Ok(None),
            },
            Ok(None) => Ok(None),
            Err(error) => Err(error),
        }
    }

    /// The one value of a directive that has to be there.
    pub fn require<T: ConfigValue>(&self, name: &str) -> (result: Result<&T, ConfigQueryError>)
        ensures
            match result {
                Ok(value) => requires_value::<T>(self@, name@, Ok(*value)),
                Err(error) => requires_value::<T>(self@, name@, Err(error)),
            },
    {
        match self.get::<T>(name) {
            Ok(Some(value)) => Ok(value),
            Ok(None) => Err(
                ConfigQueryError::MissingRequired { directive: name.to_owned(), span: self.span },
            ),
            Err(error) => Err(error),
        }
    }

    /// All values of a directive.
    pub fn get_all<T: ConfigValue>(&self, name: &str) -> (result: Result<
        Vec<&T>,
        ConfigQueryError,
    >)
        ensures
            match result {
                Ok(list) => gets_all::<T>(self@.slot(name@), name@, Ok(list@)),
                Err(error) => gets_all::<T>(self@.slot(name@), name@, Err(error)),
            },
    {
        let mut list: Vec<&T> = Vec::new();
        let values = match self.slots.get(name) {
            Some(values) => values,
            None => {
                return Ok(list);
            },
        };
        let mut i: usize = 0;
        while i < values.len()
            invariant
                i <= values@.len(),
                values@ == self@.slot(name@),
                list@.len() == i,
                forall|k: int|
                    0 <= k < i ==> T::in_data((#[trigger] values@[k]).data()) == Some(*list@[k]),
            decreases values@.len() - i,
        {
            match values[i].downcast::<T>() {
                Some(value) => {
                    list.push(value);
                },
                None => {
                    let error = type_mismatch::<T>(&values[i], name);
                    assert(is_type_mismatch::<T>(values@[i as int], name@, error));
                    return Err(error);
                },
            }
            i += 1;
        }
        Ok(list)
    }

    /// The one value of a directive in this node or the nearest of those around it, which are
    /// given from the inside out.
    pub fn inherited<'n, T: ConfigValue>(
        &'n self,
        name: &str,
        parents: &Vec<&'n ConfigNode>,
    ) -> (result: Result<Option<&'n T>, ConfigQueryError>)
        ensures
            inherits::<T>(seq![self@] + node_views(parents@), name@, found(result)),
    {
        let ghost chain = seq![self@] + node_views(parents@);
        match self.get::<T>(name) {
            Ok(None) => {},
            other => {
                return other;
            },
        }
        let mut i: usize = 0;
        assert(chain.skip(1) =~= node_views(parents@).skip(0));
        while i < parents.len()
            invariant
                i <= parents@.len(),
                forall|result: Result<Option<T>, ConfigQueryError>| #[trigger]
                    inherits::<T>(node_views(parents@).skip(i as int), name@, result)
                        ==> inherits::<T>(chain, name@, result),
                chain == seq![self@] + node_views(parents@),
            decreases parents@.len() - i,
        {
            let ghost rest = node_views(parents@).skip(i as int);
            assert(rest[0] == parents@[i as int]@);
            assert(rest.skip(1) =~= node_views(parents@).skip(i + 1));
            match parents[i].get::<T>(name) {
                Ok(None) => {},
                other => {
                    assert(inherits::<T>(rest, name@, found(other)));
                    return other;
                },
            }
            assert forall|result: Result<Option<T>, ConfigQueryError>| #[trigger]
                inherits::<T>(node_views(parents@).skip(i + 1), name@, result) implies inherits::<
                T,
            >(chain, name@, result) by {
                assert(inherits::<T>(rest, name@, result));
            }
            i += 1;
        }
        assert(inherits::<T>(node_views(parents@).skip(i as int), name@, Ok(None)));
        Ok(None)
    }

    /// The block at the end of a way from this one, with the blocks around it from the inside out, this
    /// one last: those that the block takes values over from.
    pub fn block_at<'n>(&'n self, way: &Vec<(String, usize)>) -> (block: Option<
        (&'n ConfigNode, Vec<&'n ConfigNode>),
    >)
        ensures
            match block {
                Some((block, parents)) => walk(self@, way_views(way@)) == Some(
                    seq![block@] + node_views(parents@),
                ),
                None => walk(self@, way_views(way@)) is None,
            },
    {
        let ghost all = way_views(way@);
        let mut block = self;
        let mut parents: Vec<&'n ConfigNode> = Vec::new();
        let mut i: usize = 0;
        proof {
            assert(all.take(0) =~= seq![]);
            assert(seq![block@] + node_views(parents@) =~= seq![self@]);
        }
        while i < way.len()
            invariant
                i <= way@.len(),
                all == way_views(way@),
                walk(self@, all.take(i as int)) == Some(seq![block@] + node_views(parents@)),
            decreases way@.len() - i,
        {
            let (name, at) = &way[i];
            let children = block.children_optional(name.as_str());
            let ghost chain = seq![block@] + node_views(parents@);
            proof {
                assert(all.take(i + 1).drop_last() =~= all.take(i as int));
                assert(all.take(i + 1).last() == (name@, *at as int));
                assert(chain[0] == block@);
            }
            if *at >= children.len() {
                proof {
                    lemma_lost_way(self@, all, i + 1);
                }
                return None;
            }
            parents.insert(0, block);
            block = &children[*at];
            assert(seq![block@] + node_views(parents@) =~= seq![block@] + chain);
            i += 1;
        }
        assert(all.take(i as int) =~= all);
        Some((block, parents))
    }

    /// The blocks with the given name, of which there has to be one.
    pub fn children(&self, name: &str) -> (result: Result<&[Arc<ConfigNode>], ConfigQueryError>)
        ensures
            match result {
                Ok(list) => list@ == self@.child(name@) && list@.len() > 0,
                Err(error) => self@.child(name@).len() == 0 && (error matches
                    ConfigQueryError::MissingChild { directive, span } && directive@ == name@ && span
                    == self.span),
            },
    {
        let list = self.children_optional(name);
        if list.len() == 0 {
            return Err(
                ConfigQueryError::MissingChild { directive: name.to_owned(), span: self.span },
            );
        }
        Ok(list)
    }

    /// The blocks with the given name.
    pub fn children_optional(&self, name: &str) -> (list: &[Arc<ConfigNode>])
        ensures
            list@ == self@.child(name@),
    {
        match &self.children {
            Some(lists) => match lists.get(name) {
                Some(list) => list.as_slice(),
                None => &[],
            },
            None => &[],
        }
    }

    /// What the arguments of the block say.
    pub fn payload<T: ConfigValue>(&self) -> (result: Result<Option<&T>, ConfigQueryError>)
        ensures
            gets_payload::<T>(self@, found(result)),
    {
        match &self.payload {
            None => Ok(None),
            Some(payload) => match payload.downcast::<T>() {
                Some(value) => Ok(Some(value)),
                None => match &self.name {
                    Some(name) => Err(type_mismatch::<T>(payload, name.value.as_str())),
                    None => Err(type_mismatch::<T>(payload, "<payload>")),
                },
            },
        }
    }
}

/// A value that was put in under its own type is what the directive is then found to say.
pub proof fn inserted_value_reads_back<T: ConfigValue>(
    node: NodeView,
    name: Seq<char>,
    value: T,
    typed: TypedValue,
    result: Result<T, ConfigQueryError>,
)
    requires
        node.slot(name).len() == 0,
        typed.data() == value.data(),
        requires_value::<T>(node.with_slot(name, typed), name, result),
    ensures
        result == Ok::<T, ConfigQueryError>(value),
{
    T::data_holds_value(value);
}

/// What is put in for one directive leaves the others as they are.
pub proof fn slots_are_independent(
    node: NodeView,
    name: Seq<char>,
    other: Seq<char>,
    value: TypedValue,
)
    requires
        name != other,
    ensures
        node.with_slot(name, value).slot(other) == node.slot(other),
        node.with_only(name, value).slot(other) == node.slot(other),
        node.with_slot(name, value).child(other) == node.child(other),
{
}

/// A document: its sources and its outermost node.
#[derive(Debug)]
pub struct ConfigDocument {
    pub source_map: Arc<ConfigDocumentSourceMap>,
    pub root: Arc<ConfigNode>,
}

impl ConfigDocument {
    pub fn new(source_map: Arc<ConfigDocumentSourceMap>, root: Arc<ConfigNode>) -> (document: Self)
        ensures
            document.source_map == source_map,
            document.root == root,
    {
        ConfigDocument { source_map, root }
    }

    pub fn document_id(&self) -> (id: ConfigDocumentId)
        ensures
            id == self.source_map.document(),
    {
        self.source_map.document_id()
    }
}

/// A value that the nearest block does not have is that of the next block around it which has one, and
/// what that block answers is the answer.
pub proof fn nearest_block_with_a_value_answers<T: ConfigValue>(
    chain: Seq<NodeView>,
    name: Seq<char>,
    result: Result<Option<T>, ConfigQueryError>,
    at: int,
)
    requires
        inherits::<T>(chain, name, result),
        0 <= at <= chain.len(),
        forall|i: int| 0 <= i < at ==> (#[trigger] chain[i]).slot(name).len() == 0,
        at < chain.len() ==> chain[at].slot(name).len() > 0,
    ensures
        at == chain.len() ==> result == Ok::<Option<T>, ConfigQueryError>(None),
        at < chain.len() ==> gets::<T>(chain[at].slot(name), name, result),
    decreases at,
{
    if at > 0 {
        let rest = chain.skip(1);
        assert(chain[0].slot(name).len() == 0);
        assert forall|i: int| 0 <= i < at - 1 implies (#[trigger] rest[i]).slot(name).len()
            == 0 by {
            assert(rest[i] == chain[i + 1]);
        }
        nearest_block_with_a_value_answers::<T>(rest, name, result, at - 1);
    }
}

/// A directive that stands once answers with its value, where that is of the type that is asked for;
/// one that does not stand answers with nothing; one that stands more often is refused.
pub proof fn single_values_are_asked_for<T: ConfigValue>(
    values: Seq<TypedValue>,
    name: Seq<char>,
    result: Result<Option<T>, ConfigQueryError>,
)
    requires
        gets::<T>(values, name, result),
    ensures
        result is Err == (values.len() > 1 || values.len() == 1 && T::in_data(
            values[0].data(),
        ) is None),
        result matches Ok(answer) ==> answer == (if values.len() == 0 {
            None
        } else {
            T::in_data(values[0].data())
        }),
{
}

/// A way leads one block further in at every step, and the blocks around it stay around it.
pub proof fn ways_lead_inward(
    root: NodeView,
    way: Seq<(Seq<char>, int)>,
    name: Seq<char>,
    at: int,
)
    ensures
        walk(root, seq![]) == Some(seq![root]),
        walk(root, way) matches Some(outer) ==> outer.len() == way.len() + 1 && outer.last()
            == root && walk(root, way.push((name, at))) == (if 0 <= at < outer[0].child(
            name,
        ).len() {
            Some(seq![outer[0].child(name)[at]@] + outer)
        } else {
            None
        }),
        walk(root, way) is None ==> walk(root, way.push((name, at))) is None,
    decreases way.len(),
{
    let whole = way.push((name, at));
    assert(whole.drop_last() =~= way);
    assert(whole.last() == (name, at));
    if way.len() > 0 {
        let last = way.last();
        ways_lead_inward(root, way.drop_last(), last.0, last.1);
        assert(way.drop_last().push(last) =~= way);
    }
}

/// What is put into a block under one name stands behind what was there, or in its place, and changes
/// nothing else of the block.
pub proof fn names_do_not_mix(
    node: NodeView,
    name: Seq<char>,
    value: TypedValue,
    child: Arc<ConfigNode>,
    other: Seq<char>,
)
    ensures
        node.with_slot(name, value).slot(name).len() == node.slot(name).len() + 1,
        node.with_slot(name, value).slot(name).last() == value,
        node.with_slot(name, value).slot(name).drop_last() == node.slot(name),
        node.with_only(name, value).slot(name) == seq![value],
        node.with_child(name, child).child(name).len() == node.child(name).len() + 1,
        node.with_child(name, child).child(name).last() == child,
        node.with_child(name, child).child(name).drop_last() == node.child(name),
        other != name ==> node.with_slot(name, value).slot(other) == node.slot(other),
        other != name ==> node.with_only(name, value).slot(other) == node.slot(other),
        other != name ==> node.with_child(name, child).child(other) == node.child(other),
        node.with_slot(name, value).child(other) == node.child(other),
        node.with_only(name, value).child(other) == node.child(other),
        node.with_child(name, child).slot(other) == node.slot(other),
        node.with_slot(name, value).payload == node.payload,
        node.with_only(name, value).payload == node.payload,
        node.with_child(name, child).payload == node.payload,
        node.with_slot(name, value).context == node.context,
        node.with_only(name, value).context == node.context,
        node.with_child(name, child).context == node.context,
{
    assert(node.with_slot(name, value).slot(name) =~= node.slot(name).push(value));
    assert(node.with_child(name, child).child(name) =~= node.child(name).push(child));
    assert(node.slot(name).push(value).drop_last() =~= node.slot(name));
    assert(node.child(name).push(child).drop_last() =~= node.child(name));
}

} // verus!
