//! Values that blocks take over from the blocks around them, and where they come from.
use vstd::prelude::*;

use crate::parse::contract::DirectiveContract;
use crate::parse::domain::{ConfigSourceSpan, DirectiveName};
use crate::parse::snapshot::SnapshotField;
use crate::path::{path_view, UnixPath};

verus! {

/// A number that counts from one.
#[derive(Debug, Clone, Copy, PartialEq, Eq)]
pub struct OneBased {
    value: u32,
}

impl View for OneBased {
    type V = u32;

    closed spec fn view(&self) -> u32 {
        self.value
    }
}

impl OneBased {
    #[verifier::type_invariant]
    spec fn checked(self) -> bool {
        self.value > 0
    }

    pub fn new(value: u32) -> (number: Option<Self>)
        ensures
            match number {
                Some(number) => value > 0 && number@ == value,
                None => value == 0,
            },
    {
        if value > 0 {
            Some(OneBased { value })
        } else {
            None
        }
    }

    pub fn get(self) -> (value: u32)
        ensures
            value == self@,
            value > 0,
    {
        proof {
            use_type_invariant(&self);
        }
        self.value
    }
}

/// A place in a document of another process. Lines and columns count from one.
#[derive(Debug, PartialEq, Eq)]
pub struct InheritedSourceLocation {
    pub document: Option<UnixPath>,
    pub line: OneBased,
    pub column: OneBased,
}

/// A place in a document of another process, with the path as bytes.
pub struct LocationView {
    pub document: Option<Seq<u8>>,
    pub line: u32,
    pub column: u32,
}

impl View for InheritedSourceLocation {
    type V = LocationView;

    open spec fn view(&self) -> LocationView {
        LocationView { document: path_view(self.document), line: self.line@, column: self.column@ }
    }
}

impl InheritedSourceLocation {
    pub fn new(document: Option<UnixPath>, line: OneBased, column: OneBased) -> (location: Self)
        ensures
            location == (InheritedSourceLocation { document, line, column }),
    {
        InheritedSourceLocation { document, line, column }
    }

    pub fn document(&self) -> (document: Option<&UnixPath>)
        ensures
            match document {
                Some(document) => self.document == Some(*document),
                None => self.document is None,
            },
    {
        self.document.as_ref()
    }

    pub fn line(&self) -> (line: OneBased)
        ensures
            line == self.line,
    {
        self.line
    }

    pub fn column(&self) -> (column: OneBased)
        ensures
            column == self.column,
    {
        self.column
    }
}

impl Clone for InheritedSourceLocation {
    fn clone(&self) -> (copy: Self)
        ensures
            copy@ == self@,
    {
        let document = match &self.document {
            Some(document) => Some(document.clone()),
            None => None,
        };
        InheritedSourceLocation { document, line: self.line, column: self.column }
    }
}

/// Where a value was set.
#[derive(Debug, Clone, PartialEq, Eq)]
pub enum ConfigOrigin {
    Source(ConfigSourceSpan),
    RootInherited { directive: DirectiveName, source: Option<InheritedSourceLocation> },
    Builtin { directive: DirectiveName },
}

/// Where a value was set, as plain contents.
pub enum CascadeOriginView {
    Source(ConfigSourceSpan),
    RootInherited { directive: Seq<char>, source: Option<LocationView> },
    Builtin { directive: Seq<char> },
}

impl View for ConfigOrigin {
    type V = CascadeOriginView;

    open spec fn view(&self) -> CascadeOriginView {
        match *self {
            ConfigOrigin::Source(span) => CascadeOriginView::Source(span),
            ConfigOrigin::RootInherited { directive, source } => CascadeOriginView::RootInherited {
                directive: directive.text(),
                source: match source {
                    Some(source) => Some(source@),
                    None => None,
                },
            },
            ConfigOrigin::Builtin { directive } => CascadeOriginView::Builtin {
                directive: directive.text(),
            },
        }
    }
}

/// The origins of a list, as plain contents.
pub open spec fn cascade_origins(list: Seq<ConfigOrigin>) -> Seq<CascadeOriginView> {
    list.map_values(|origin: ConfigOrigin| origin@)
}

/// A value with the origins of all that was set on the way to it, the outermost first.
#[derive(Debug, Clone, PartialEq, Eq)]
pub struct CascadedValue<T> {
    pub effective: T,
    pub lineage: Vec<ConfigOrigin>,
}

impl<T> CascadedValue<T> {
    pub fn new(effective: T, lineage: Vec<ConfigOrigin>) -> (value: Self)
        ensures
            value == (CascadedValue { effective, lineage }),
    {
        CascadedValue { effective, lineage }
    }

    pub fn effective(&self) -> (effective: &T)
        ensures
            *effective == self.effective,
    {
        &self.effective
    }

    pub fn lineage(&self) -> (lineage: &[ConfigOrigin])
        ensures
            lineage@ == self.lineage@,
    {
        self.lineage.as_slice()
    }
}

/// Asks for a value that blocks take over from the blocks around them: what is expected of the
/// directive from the outermost block that may set it to the one that is asked, what holds where
/// nothing is set, and the field of the root's snapshot that it comes from.
#[derive(Debug)]
pub struct DirectiveKey<T> {
    name: DirectiveName,
    contracts: Vec<DirectiveContract>,
    builtin: Option<T>,
    field: Option<SnapshotField>,
}

impl<T> DirectiveKey<T> {
    /// The name of the directive.
    pub closed spec fn directive(self) -> Seq<char> {
        self.name.text()
    }

    /// What is expected of the directive, the outermost block first.
    pub closed spec fn expects(self) -> Seq<DirectiveContract> {
        self.contracts@
    }

    /// What holds where nothing is set.
    pub closed spec fn fallback(self) -> Option<T> {
        self.builtin
    }

    /// The field of the root's snapshot that the value comes from.
    pub closed spec fn snapshot_field(self) -> Option<SnapshotField> {
        self.field
    }

    #[verifier::type_invariant]
    spec fn checked(self) -> bool {
        self.contracts@.len() > 0
    }

    pub fn new(
        name: &'static str,
        contract: DirectiveContract,
        builtin: Option<T>,
        field: Option<SnapshotField>,
    ) -> (key: Self)
        ensures
            key.directive() == name@,
            key.expects() == seq![contract],
            key.fallback() == builtin,
            key.snapshot_field() == field,
    {
        let mut contracts: Vec<DirectiveContract> = Vec::new();
        contracts.push(contract);
        assert(contracts@ =~= seq![contract]);
        DirectiveKey { name: DirectiveName::new(name), contracts, builtin, field }
    }

    /// The key for the same directive in a block inside those that this key is about.
    pub fn inheriting(self, contract: DirectiveContract) -> (key: Self)
        ensures
            key.directive() == self.directive(),
            key.expects() == self.expects().push(contract),
            key.fallback() == self.fallback(),
            key.snapshot_field() == self.snapshot_field(),
    {
        let DirectiveKey { name, contracts, builtin, field } = self;
        let mut contracts = contracts;
        contracts.push(contract);
        DirectiveKey { name, contracts, builtin, field }
    }

    pub fn name(&self) -> (name: DirectiveName)
        ensures
            name.text() == self.directive(),
    {
        self.name
    }

    pub fn contracts(&self) -> (contracts: &Vec<DirectiveContract>)
        ensures
            contracts@ == self.expects(),
            contracts@.len() > 0,
    {
        proof {
            use_type_invariant(self);
        }
        &self.contracts
    }

    pub fn builtin(&self) -> (value: Option<&T>)
        ensures
            match value {
                Some(value) => self.fallback() == Some(*value),
                None => self.fallback() is None,
            },
    {
        self.builtin.as_ref()
    }

    pub fn field(&self) -> (field: Option<SnapshotField>)
        ensures
            field == self.snapshot_field(),
    {
        self.field
    }
}

} // verus!
