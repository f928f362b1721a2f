//! A plain tree of configuration: directives as words, values by name, and blocks that are asked
//! through the blocks around them.
use std::sync::Arc;

use vstd::prelude::*;
use vstd::utf8::encode_utf8;

use crate::address::SocketAddr;
use crate::outside::{Uri, UriView};
use crate::parse::pattern::{Pattern, PatternView};
use crate::parse::types::{HeaderRule, HeaderValue, Listens, ListensView, MimeTypes};
use crate::path::UnixPath;
use crate::table::{
    distinct_keys, has_key, lemma_table, lemma_table_push, lemma_table_remove, table,
};
use crate::text::{str_eq, texts, way_views};

verus! {

/// A directive: a name, arguments, and the directives of its block where it has one.
#[derive(Debug)]
pub struct Directive {
    pub name: String,
    pub args: Vec<String>,
    pub children: Option<Vec<Directive>>,
}

impl Directive {
    /// The spelling of the argument with the given index.
    pub open spec fn arg(self, index: int) -> Seq<char> {
        self.args@[index]@
    }
}

/// What a directive says.
#[derive(Debug)]
pub enum Value {
    Boolean(bool),
    String(String),
    StringVec(Vec<String>),
    StringMap(ValueMap),
    HeaderValue(HeaderValue),
    Types(MimeTypes),
    Uri(Uri),
    Listen(Vec<Listens>),
    Addr(SocketAddr),
    AddrVec(Vec<SocketAddr>),
    Resolver(Uri),
    Path(UnixPath),
    ServerName(Vec<String>),
    ServerId(u8),
    Header(Vec<HeaderRule>),
    SshSslUser(Vec<(String, String)>),
    /// The values of a block.
    ValueMap(ValueMap),
    /// The requests that a block is for, and its values.
    Pattern(Pattern, ValueMap),
    /// The blocks of one name.
    Nodes(Vec<Arc<Node>>),
}

/// Values by the names of their directives.
#[derive(Debug)]
pub struct ValueMap {
    entries: Vec<(String, Value)>,
}

/// A block.
#[derive(Debug)]
pub struct Node {
    pub value: Value,
}

/// A header, as plain contents.
pub struct HeaderView {
    pub name: Seq<u8>,
    pub value: Seq<u8>,
    pub always: bool,
}

/// What a directive says, as plain contents.
#[verifier::ext_equal]
pub enum ValueView {
    Boolean(bool),
    String(Seq<char>),
    StringVec(Seq<Seq<char>>),
    StringMap(Map<Seq<char>, ValueView>),
    HeaderValue(Seq<u8>),
    Types(Map<Seq<char>, Seq<u8>>),
    Uri(UriView),
    Listen(Seq<ListensView>),
    Addr(SocketAddr),
    AddrVec(Seq<SocketAddr>),
    Resolver(UriView),
    Path(Seq<u8>),
    ServerName(Seq<Seq<char>>),
    ServerId(u8),
    Header(Seq<HeaderView>),
    SshSslUser(Seq<(Seq<char>, Seq<char>)>),
    ValueMap(Map<Seq<char>, ValueView>),
    Pattern(PatternView, Map<Seq<char>, ValueView>),
    Nodes(Seq<ValueView>),
}

/// Headers, as plain contents.
pub open spec fn header_views(rules: Seq<HeaderRule>) -> Seq<HeaderView> {
    rules.map_values(
        |rule: HeaderRule|
            HeaderView {
                name: encode_utf8(rule.name@),
                value: rule.value@,
                always: rule.always,
            },
    )
}

/// Login users, as characters.
pub open spec fn user_views(users: Seq<(String, String)>) -> Seq<(Seq<char>, Seq<char>)> {
    users.map_values(|user: (String, String)| (user.0@, user.1@))
}

/// What is listened on, as plain contents.
pub open spec fn listen_views(listens: Seq<Listens>) -> Seq<ListensView> {
    listens.map_values(|listen: Listens| listen@)
}

impl Value {
    pub open spec fn view(&self) -> ValueView
        decreases self,
    {
        match *self {
            Value::Boolean(on) => ValueView::Boolean(on),
            Value::String(text) => ValueView::String(text@),
            Value::StringVec(list) => ValueView::StringVec(texts(list@)),
            Value::StringMap(map) => ValueView::StringMap(map.view()),
            Value::HeaderValue(value) => ValueView::HeaderValue(value@),
            Value::Types(types) => ValueView::Types(types@),
            Value::Uri(uri) => ValueView::Uri(uri@),
            Value::Listen(list) => ValueView::Listen(listen_views(list@)),
            Value::Addr(addr) => ValueView::Addr(addr),
            Value::AddrVec(list) => ValueView::AddrVec(list@),
            Value::Resolver(uri) => ValueView::Resolver(uri@),
            Value::Path(path) => ValueView::Path(path@),
            Value::ServerName(names) => ValueView::ServerName(texts(names@)),
            Value::ServerId(id) => ValueView::ServerId(id),
            Value::Header(rules) => ValueView::Header(header_views(rules@)),
            Value::SshSslUser(users) => ValueView::SshSslUser(user_views(users@)),
            Value::ValueMap(map) => ValueView::ValueMap(map.view()),
            Value::Pattern(pattern, map) => ValueView::Pattern(pattern@, map.view()),
            Value::Nodes(nodes) => ValueView::Nodes(
                Seq::new(
                    nodes@.len(),
                    |i: int|
                        if 0 <= i < nodes@.len() {
                            nodes@[i].value.view()
                        } else {
                            arbitrary()
                        },
                ),
            ),
        }
    }

    /// The value with the given name in a block.
    pub open spec fn at(self, key: Seq<char>) -> Option<ValueView> {
        match self {
            Value::ValueMap(map) => entry(map.view(), key),
            Value::Pattern(_, map) => entry(map.view(), key),
            _ => None,
        }
    }

    /// The value with the given name in a block.
    pub fn get(&self, key: &str) -> (value: Option<&Value>)
        ensures
            match value {
                Some(value) => self.at(key@) == Some(value.view()),
                None => self.at(key@) is None,
            },
    {
        match self {
            Value::ValueMap(map) => map.get(key),
            Value::Pattern(_, map) => map.get(key),
            _ => None,
        }
    }
}

/// Blocks, as plain contents.
pub open spec fn node_views(nodes: Seq<Arc<Node>>) -> Seq<ValueView> {
    nodes.map_values(|node: Arc<Node>| node.value.view())
}

/// The value with the given name.
pub open spec fn entry(values: Map<Seq<char>, ValueView>, key: Seq<char>) -> Option<ValueView> {
    if values.contains_key(key) {
        Some(values[key])
    } else {
        None
    }
}

impl ValueMap {
    spec fn pairs(self) -> Seq<(Seq<char>, ValueView)>
        decreases self, 0nat,
    {
        Seq::new(
            self.entries@.len(),
            |i: int|
                if 0 <= i < self.entries@.len() {
                    (self.entries@[i].0@, self.entries@[i].1.view())
                } else {
                    arbitrary()
                },
        )
    }

    pub closed spec fn view(&self) -> Map<Seq<char>, ValueView>
        decreases self, 1nat,
    {
        table(self.pairs())
    }

    #[verifier::type_invariant]
    spec fn checked(self) -> bool {
        distinct_keys(self.pairs())
    }

    pub fn new() -> (map: Self)
        ensures
            map.view() == Map::<Seq<char>, ValueView>::empty(),
    {
        let map = ValueMap { entries: Vec::new() };
        assert(map.pairs() =~= seq![]);
        map
    }

    fn find(&self, key: &str) -> (at: Option<usize>)
        ensures
            match at {
                Some(at) => at < self.entries@.len() && self.entries@[at as int].0@ == key@,
                None => !has_key(self.pairs(), key@),
            },
    {
        let mut i: usize = 0;
        while i < self.entries.len()
            invariant
                i <= self.entries@.len(),
                forall|k: int| 0 <= k < i ==> (#[trigger] self.pairs()[k]).0 != key@,
            decreases self.entries@.len() - i,
        {
            if str_eq(self.entries[i].0.as_str(), key) {
                return Some(i);
            }
            i += 1;
        }
        None
    }

    pub fn get(&self, key: &str) -> (value: Option<&Value>)
        ensures
            match value {
                Some(value) => entry(self.view(), key@) == Some(value.view()),
                None => entry(self.view(), key@) is None,
            },
    {
        proof {
            use_type_invariant(self);
            lemma_table(self.pairs());
        }
        match self.find(key) {
            Some(at) => {
                assert(self.pairs()[at as int].0 == key@);
                Some(&self.entries[at].1)
            },
            None => None,
        }
    }

    /// Whether there is a value with the given name.
    pub fn contains_key(&self, key: &str) -> (found: bool)
        ensures
            found == self.view().contains_key(key@),
    {
        self.get(key).is_some()
    }

    /// Takes out the value with the given name.
    pub fn take(&mut self, key: &str) -> (value: Option<Value>)
        ensures
            match value {
                Some(value) => entry(old(self).view(), key@) == Some(value.view()),
                None => entry(old(self).view(), key@) is None,
            },
            final(self).view() == old(self).view().remove(key@),
    {
        proof {
            use_type_invariant(&*self);
            lemma_table(self.pairs());
        }
        let found = self.find(key);
        let ghost before = *self;
        match found {
            Some(at) => {
                let mut whole = ValueMap::new();
                core::mem::swap(&mut whole, self);
                let ValueMap { entries: taken } = whole;
                let mut entries = taken;
                let (name, value) = entries.remove(at);
                proof {
                    lemma_table_remove(before.pairs(), at as int);
                    assert(before.pairs()[at as int] == (name@, value.view()));
                    let rest = ValueMap { entries };
                    assert(rest.pairs() =~= before.pairs().remove(at as int));
                }
                *self = ValueMap { entries };
                Some(value)
            },
            None => {
                assert(self.view() =~= self.view().remove(key@));
                None
            },
        }
    }

    /// Enters a value, in place of the one with the same name.
    pub fn insert(&mut self, key: String, value: Value)
        ensures
            final(self).view() == old(self).view().insert(key@, value.view()),
    {
        let earlier = self.take(key.as_str());
        proof {
            use_type_invariant(&*self);
            lemma_table(self.pairs());
            assert(!has_key(self.pairs(), key@)) by {
                if has_key(self.pairs(), key@) {
                    let i = choose|i: int|
                        0 <= i < self.pairs().len() && (#[trigger] self.pairs()[i]).0 == key@;
                    assert(self.view().contains_key(self.pairs()[i].0));
                }
            }
        }
        let ghost before = *self;
        let mut whole = ValueMap::new();
        core::mem::swap(&mut whole, self);
        let ValueMap { entries: taken } = whole;
        let mut entries = taken;
        let ghost pair = (key@, value.view());
        entries.push((key, value));
        proof {
            let after = ValueMap { entries };
            lemma_table_push(before.pairs(), pair.0, pair.1);
            assert(after.pairs() =~= before.pairs().push(pair));
            assert(before.view().insert(pair.0, pair.1) =~= old(self).view().insert(pair.0, pair.1));
        }
        *self = ValueMap { entries };
    }
}

/// The nearest of some blocks that has a value with the given name.
pub open spec fn nearest(nodes: Seq<Arc<Node>>, key: Seq<char>) -> Option<int>
    decreases nodes.len(),
{
    if nodes.len() == 0 {
        None
    } else if nodes[0].value.at(key) is Some {
        Some(0)
    } else {
        match nearest(nodes.drop_first(), key) {
            Some(i) => Some(i + 1),
            None => None,
        }
    }
}

/// The value with the given name in a block, or else in the nearest block around it that has one.
pub open spec fn backtracked(node: Node, parents: Seq<Arc<Node>>, key: Seq<char>) -> Option<ValueView> {
    match node.value.at(key) {
        Some(value) => Some(value),
        None => match nearest(parents, key) {
            Some(i) => parents[i].value.at(key),
            None => None,
        },
    }
}

/// The value with the given name in a block.
pub open spec fn value_at(block: ValueView, name: Seq<char>) -> Option<ValueView> {
    match block {
        ValueView::ValueMap(values) => entry(values, name),
        ValueView::Pattern(_, values) => entry(values, name),
        _ => None,
    }
}

/// The block at the end of a way, and then the blocks around it from the inside out; nothing where
/// the way leads nowhere. A block inside one for certain requests has no blocks around it.
pub open spec fn walk(root: ValueView, way: Seq<(Seq<char>, int)>) -> Option<Seq<ValueView>>
    decreases way.len(),
{
    if way.len() == 0 {
        Some(seq![root])
    } else {
        let (name, at) = way.last();
        match walk(root, way.drop_last()) {
            Some(chain) => match value_at(chain[0], name) {
                Some(ValueView::Nodes(blocks)) => if 0 <= at < blocks.len() {
                    Some(
                        seq![blocks[at]] + (if chain[0] is ValueMap {
                            chain
                        } else {
                            seq![]
                        }),
                    )
                } else {
                    None
                },
                _ => None,
            },
            None => None,
        }
    }
}

proof fn lemma_lost_way(root: ValueView, way: Seq<(Seq<char>, int)>, count: int)
    requires
        0 <= count <= way.len(),
        walk(root, way.take(count)) is None,
    ensures
        walk(root, way) is None,
    decreases way.len(),
{
    if count == way.len() {
        assert(way.take(count) =~= way);
    } else {
        assert(way.drop_last().take(count) =~= way.take(count));
        lemma_lost_way(root, way.drop_last(), count);
    }
}

/// The values of blocks.
pub open spec fn block_views(blocks: Seq<Arc<Node>>) -> Seq<ValueView> {
    blocks.map_values(|block: Arc<Node>| block.value.view())
}

/// A block never takes a value from around it where it has one itself.
pub proof fn own_value_wins(node: Node, parents: Seq<Arc<Node>>, key: Seq<char>)
    requires
        node.value.at(key) is Some,
    ensures
        backtracked(node, parents, key) == node.value.at(key),
{
}

impl Node {
    /// A block.
    pub fn new(value: Value) -> (node: Self)
        requires
            value is ValueMap || value is Pattern,
        ensures
            node.value == value,
    {
        Node { value }
    }

    pub fn value(&self) -> (value: &Value)
        ensures
            *value == self.value,
    {
        &self.value
    }

    /// The value with the given name.
    pub fn get(&self, key: &str) -> (value: Option<&Value>)
        ensures
            match value {
                Some(value) => self.value.at(key@) == Some(value.view()),
                None => self.value.at(key@) is None,
            },
    {
        self.value.get(key)
    }

    /// The block at the end of a way from this one, with the blocks around it from the inside out: those
    /// that the block takes values over from.
    pub fn block_at(root: &Arc<Node>, way: &Vec<(String, usize)>) -> (block: Option<
        (Arc<Node>, Vec<Arc<Node>>),
    >)
        ensures
            match block {
                Some((block, parents)) => walk(root.value.view(), way_views(way@)) == Some(
                    seq![block.value.view()] + block_views(parents@),
                ),
                None => walk(root.value.view(), way_views(way@)) is None,
            },
    {
        let ghost start = root.value.view();
        let ghost all = way_views(way@);
        let mut block = Arc::clone(root);
        let mut parents: Vec<Arc<Node>> = Vec::new();
        let mut i: usize = 0;
        proof {
            assert(all.take(0) =~= seq![]);
            assert(seq![start] + block_views(parents@) =~= seq![start]);
        }
        while i < way.len()
            invariant
                i <= way@.len(),
                all == way_views(way@),
                start == root.value.view(),
                walk(start, all.take(i as int)) == Some(
                    seq![block.value.view()] + block_views(parents@),
                ),
            decreases way@.len() - i,
        {
            let (name, at) = &way[i];
            let ghost chain = seq![block.value.view()] + block_views(parents@);
            proof {
                assert(all.take(i + 1).drop_last() =~= all.take(i as int));
                assert(all.take(i + 1).last() == (name@, *at as int));
                assert(chain[0] == block.value.view());
            }
            let child = match block.get(name.as_str()) {
                Some(Value::Nodes(blocks)) => if *at < blocks.len() {
                    Some(Arc::clone(&blocks[*at]))
                } else {
                    None
                },
                _ => None,
            };
            let child = match child {
                Some(child) => child,
                None => {
                    proof {
                        lemma_lost_way(start, all, i + 1);
                    }
                    return None;
                },
            };
            if matches!(block.value, Value::ValueMap(_)) {
                parents.insert(0, block);
            } else {
                parents = Vec::new();
            }
            block = child;
            assert(seq![block.value.view()] + block_views(parents@) =~= seq![block.value.view()]
                + (if chain[0] is ValueMap {
                chain
            } else {
                seq![]
            }));
            i += 1;
        }
        assert(all.take(i as int) =~= all);
        Some((block, parents))
    }

    /// The block itself, or else the nearest of the blocks around it, that has a value with the
    /// given name. The blocks around it are given from the inside out.
    pub fn backtrack_node<'a>(&'a self, parents: &'a Vec<Arc<Node>>, key: &str) -> (node: Option<
        &'a Node,
    >)
        ensures
            match node {
                Some(node) => node.value.at(key@) is Some && node.value.at(key@) == backtracked(
                    *self,
                    parents@,
                    key@,
                ) && (self.value.at(key@) is Some ==> *node == *self),
                None => backtracked(*self, parents@, key@) is None,
            },
    {
        if self.get(key).is_some() {
            return Some(self);
        }
        let mut i: usize = 0;
        assert(parents@.skip(0) =~= parents@);
        while i < parents.len()
            invariant
                i <= parents@.len(),
                self.value.at(key@) is None,
                nearest(parents@, key@) == (match nearest(parents@.skip(i as int), key@) {
                    Some(k) => Some(k + i),
                    None => None,
                }),
            decreases parents@.len() - i,
        {
            assert(parents@.skip(i as int)[0] == parents@[i as int]);
            assert(parents@.skip(i as int).drop_first() =~= parents@.skip(i + 1));
            if parents[i].get(key).is_some() {
                return Some(&parents[i]);
            }
            i += 1;
        }
        assert(parents@.skip(i as int) =~= seq![]);
        None
    }

    /// The value with the given name in the block, or else in the nearest block around it.
    pub fn get_value_recursive<'a>(&'a self, parents: &'a Vec<Arc<Node>>, key: &str) -> (value: Option<
        &'a Value,
    >)
        ensures
            match value {
                Some(value) => backtracked(*self, parents@, key@) == Some(value.view()),
                None => backtracked(*self, parents@, key@) is None,
            },
    {
        match self.backtrack_node(parents, key) {
            Some(node) => node.get(key),
            None => None,
        }
    }

    pub fn get_bool(&self, parents: &Vec<Arc<Node>>, key: &str) -> (value: Option<bool>)
        ensures
            value == (match backtracked(*self, parents@, key@) {
                Some(ValueView::Boolean(on)) => Some(on),
                _ => None,
            }),
    {
        match self.get_value_recursive(parents, key) {
            Some(Value::Boolean(on)) => Some(*on),
            _ => None,
        }
    }

    /// The text with the given name.
    pub fn get_str<'a>(&'a self, parents: &'a Vec<Arc<Node>>, key: &str) -> (value: Option<&'a str>)
        ensures
            match backtracked(*self, parents@, key@) {
                Some(ValueView::String(text)) => value matches Some(value) && value@ == text,
                _ => value is None,
            },
    {
        match self.get_value_recursive(parents, key) {
            Some(Value::String(text)) => Some(text.as_str()),
            _ => None,
        }
    }

    pub fn get_string_vec<'a>(&'a self, parents: &'a Vec<Arc<Node>>, key: &str) -> (value: Option<
        &'a Vec<String>,
    >)
        ensures
            match backtracked(*self, parents@, key@) {
                Some(ValueView::StringVec(list)) => value matches Some(value) && texts(value@)
                    == list,
                _ => value is None,
            },
    {
        match self.get_value_recursive(parents, key) {
            Some(Value::StringVec(list)) => Some(list),
            _ => None,
        }
    }

    pub fn get_types<'a>(&'a self, parents: &'a Vec<Arc<Node>>, key: &str) -> (value: Option<
        &'a MimeTypes,
    >)
        ensures
            match backtracked(*self, parents@, key@) {
                Some(ValueView::Types(types)) => value matches Some(value) && value@ == types,
                _ => value is None,
            },
    {
        match self.get_value_recursive(parents, key) {
            Some(Value::Types(types)) => Some(types),
            _ => None,
        }
    }

    pub fn get_header_value<'a>(&'a self, parents: &'a Vec<Arc<Node>>, key: &str) -> (value: Option<
        &'a HeaderValue,
    >)
        ensures
            match backtracked(*self, parents@, key@) {
                Some(ValueView::HeaderValue(bytes)) => value matches Some(value) && value@ == bytes,
                _ => value is None,
            },
    {
        match self.get_value_recursive(parents, key) {
            Some(Value::HeaderValue(value)) => Some(value),
            _ => None,
        }
    }
}

} // verus!
