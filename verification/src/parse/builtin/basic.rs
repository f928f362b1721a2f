//! Directives that carry text, switches and paths.
use vstd::prelude::*;

use crate::parse::ast::{AstBody, AstDirective, Spanned};
use crate::parse::builtin::DirectiveError;
use crate::parse::decode::{first_place, is_count_error, DirectiveInput, DirectiveValue};
use crate::parse::normalize::{
    base_dir_of, is_resolution, resolve_config_path, NormalizeDirectiveValueError,
};
use crate::parse::domain::ResolvedConfigPath;
use crate::parse::source::{SourceMap, SourceSpan};
use crate::parse::types::{
    has_empty, BoolConfig, GzipTypesValidationError, PathConfig, StringConfig, StringList,
};
use crate::path::UnixPath;
use crate::text::{str_eq, texts};
use vstd::utf8::encode_utf8;

verus! {

/// The argument of a directive that has exactly one.
pub fn only_arg(directive: &AstDirective) -> (arg: Option<&Spanned<String>>)
    ensures
        match arg {
            Some(arg) => directive.args@.len() == 1 && *arg == directive.args@[0],
            None => directive.args@.len() != 1,
        },
{
    if directive.args.len() == 1 {
        Some(&directive.args[0])
    } else {
        None
    }
}

/// The place of the first argument, or of the directive where it has none.
pub fn first_arg_place(directive: &AstDirective) -> (span: SourceSpan)
    ensures
        span == first_place(*directive),
{
    if directive.args.len() > 0 {
        directive.args[0].span
    } else {
        directive.span
    }
}

/// The place of the first argument, or of the directive where it has none.
pub fn first_arg_span(input: &DirectiveInput<'_>) -> (span: SourceSpan)
    ensures
        span == first_place(*input.directive),
{
    first_arg_place(input.directive)
}

/// The directives in the block of a directive, where it has one.
pub fn block_children<'directive>(input: &DirectiveInput<'directive>) -> (children: Option<
    &'directive Vec<AstDirective>,
>)
    ensures
        match children {
            Some(list) => input.directive.block() == Some(list@),
            None => input.directive.block() is None,
        },
{
    match &input.directive.body {
        AstBody::Block { children, .. } => Some(children),
        AstBody::Leaf { .. } => None,
    }
}

/// Copies the arguments of a directive.
pub fn arg_strings(directive: &AstDirective) -> (values: Vec<String>)
    ensures
        values@ == directive.arg_values(),
{
    let mut values: Vec<String> = Vec::new();
    let mut i: usize = 0;
    while i < directive.args.len()
        invariant
            i <= directive.args@.len(),
            values@ == directive.arg_values().take(i as int),
        decreases directive.args@.len() - i,
    {
        values.push(directive.args[i].value.clone());
        assert(directive.arg_values().take(i + 1) =~= directive.arg_values().take(i as int).push(
            directive.arg_values()[i as int],
        ));
        i += 1;
    }
    assert(directive.arg_values().take(i as int) =~= directive.arg_values());
    values
}

/// Why a directive gives no text.
#[derive(Debug)]
pub enum StringConfigError {
    InvalidArgumentCount { span: SourceSpan, expected: &'static str, actual: usize },
}

impl StringConfigError {
    /// The message of this error.
    pub open spec fn text(self) -> Seq<char> {
        match self {
            StringConfigError::InvalidArgumentCount { .. } => "invalid string directive argument count"@,
        }
    }

    /// The message of this error.
    pub fn message(&self) -> (text: String)
        ensures
            text@ == self.text(),
    {
        match self {
            StringConfigError::InvalidArgumentCount { .. } => "invalid string directive argument count".to_owned(),
        }
    }

    /// The messages of this error and of what caused it, outermost first.
    pub open spec fn chain(self) -> Seq<Seq<char>> {
        seq![self.text()]
    }

    /// The messages of this error and of what caused it, outermost first.
    pub fn messages(&self) -> (list: Vec<String>)
        ensures
            texts(list@) == self.chain(),
    {
        let mut list: Vec<String> = Vec::new();
        list.push(self.message());
        assert(texts(list@) =~= self.chain());
        list
    }
}

impl DirectiveValue for StringConfig {
    type Error = StringConfigError;

    open spec fn reads(
        directive: AstDirective,
        sources: SourceMap,
        result: Result<Self, StringConfigError>,
    ) -> bool {
        if directive.args@.len() == 1 {
            result matches Ok(value) && value.0@ == directive.arg(0)
        } else {
            result matches Err(StringConfigError::InvalidArgumentCount { span, expected, actual })
                && is_count_error(directive, span, expected@, actual, "1"@)
        }
    }

    open spec fn place(directive: AstDirective) -> SourceSpan {
        first_place(directive)
    }

    open spec fn wrapped(error: StringConfigError) -> DirectiveError {
        DirectiveError::StringConfig(error)
    }

    proof fn reads_one_way(
        directive: AstDirective,
        sources: SourceMap,
        value: Self,
        error: StringConfigError,
    ) {
    }

    fn read(directive: &AstDirective, source_map: &SourceMap) -> (result: Result<Self, StringConfigError>) {
        match only_arg(directive) {
            Some(arg) => Ok(StringConfig(arg.value.clone())),
            None => {
                return Err(
                    StringConfigError::InvalidArgumentCount {
                        span: directive.span,
                        expected: "1",
                        actual: directive.args.len(),
                    },
                );
            },
        }
    }

    fn place_of(directive: &AstDirective) -> (span: SourceSpan) {
        first_arg_place(directive)
    }

    fn wrap(error: StringConfigError) -> (wrapped: DirectiveError) {
        DirectiveError::StringConfig(error)
    }
}

/// Why a directive gives no list of words.
#[derive(Debug)]
pub enum StringListError {
    GzipTypes { span: SourceSpan, source: GzipTypesValidationError },
}

impl StringListError {
    /// The message of this error.
    pub open spec fn text(self) -> Seq<char> {
        match self {
            StringListError::GzipTypes { .. } => "invalid gzip_types directive value"@,
        }
    }

    /// The message of this error.
    pub fn message(&self) -> (text: String)
        ensures
            text@ == self.text(),
    {
        match self {
            StringListError::GzipTypes { .. } => "invalid gzip_types directive value".to_owned(),
        }
    }

    /// The messages of this error and of what caused it, outermost first.
    pub open spec fn chain(self) -> Seq<Seq<char>> {
        match self {
            StringListError::GzipTypes { source, .. } => seq![self.text(), source.text()],
        }
    }

    /// The messages of this error and of what caused it, outermost first.
    pub fn messages(&self) -> (list: Vec<String>)
        ensures
            texts(list@) == self.chain(),
    {
        let mut list: Vec<String> = Vec::new();
        list.push(self.message());
        match self {
            StringListError::GzipTypes { source, .. } => {
                list.push(source.message());
            },
        }
        assert(texts(list@) =~= self.chain());
        list
    }
}

impl DirectiveValue for StringList {
    type Error = StringListError;

    open spec fn reads(
        directive: AstDirective,
        sources: SourceMap,
        result: Result<Self, StringListError>,
    ) -> bool {
        if directive.name_text() == "gzip_types"@ && has_empty(directive.arg_values()) {
            result matches Err(StringListError::GzipTypes { span, source }) && span
                == directive.span
        } else {
            result matches Ok(list) && list@ == directive.arg_values()
        }
    }

    open spec fn place(directive: AstDirective) -> SourceSpan {
        directive.span
    }

    open spec fn wrapped(error: StringListError) -> DirectiveError {
        DirectiveError::StringList(error)
    }

    proof fn reads_one_way(
        directive: AstDirective,
        sources: SourceMap,
        value: Self,
        error: StringListError,
    ) {
    }

    fn read(directive: &AstDirective, source_map: &SourceMap) -> (result: Result<Self, StringListError>) {
        let values = arg_strings(directive);
        if directive.is_named("gzip_types") {
            return match StringList::checked_gzip_types(values) {
                Ok(list) => Ok(list),
                Err(source) => Err(StringListError::GzipTypes { span: directive.span, source }),
            };
        }
        Ok(StringList(values))
    }

    fn place_of(directive: &AstDirective) -> (span: SourceSpan) {
        directive.span
    }

    fn wrap(error: StringListError) -> (wrapped: DirectiveError) {
        DirectiveError::StringList(error)
    }
}

/// Why a directive gives no switch.
#[derive(Debug)]
pub enum BoolConfigError {
    InvalidArgumentCount { span: SourceSpan, expected: &'static str, actual: usize },
    InvalidBoolean { span: SourceSpan, value: String },
}

impl BoolConfigError {
    /// The message of this error.
    pub open spec fn text(self) -> Seq<char> {
        match self {
            BoolConfigError::InvalidArgumentCount { .. } => "invalid boolean directive argument count"@,
            BoolConfigError::InvalidBoolean { .. } => "invalid boolean directive value"@,
        }
    }

    /// The message of this error.
    pub fn message(&self) -> (text: String)
        ensures
            text@ == self.text(),
    {
        match self {
            BoolConfigError::InvalidArgumentCount { .. } => "invalid boolean directive argument count".to_owned(),
            BoolConfigError::InvalidBoolean { .. } => "invalid boolean directive value".to_owned(),
        }
    }

    /// The messages of this error and of what caused it, outermost first.
    pub open spec fn chain(self) -> Seq<Seq<char>> {
        seq![self.text()]
    }

    /// The messages of this error and of what caused it, outermost first.
    pub fn messages(&self) -> (list: Vec<String>)
        ensures
            texts(list@) == self.chain(),
    {
        let mut list: Vec<String> = Vec::new();
        list.push(self.message());
        assert(texts(list@) =~= self.chain());
        list
    }
}

/// The switch that a word stands for.
pub open spec fn switch_of(text: Seq<char>) -> Option<bool> {
    if text == "on"@ {
        Some(true)
    } else if text == "off"@ {
        Some(false)
    } else {
        None
    }
}

impl DirectiveValue for BoolConfig {
    type Error = BoolConfigError;

    open spec fn reads(
        directive: AstDirective,
        sources: SourceMap,
        result: Result<Self, BoolConfigError>,
    ) -> bool {
        if directive.args@.len() == 1 {
            match switch_of(directive.arg(0)) {
                Some(on) => result == Ok::<Self, BoolConfigError>(BoolConfig(on)),
                None => result matches Err(BoolConfigError::InvalidBoolean { span, value }) && span
                    == directive.args@[0].span && value@ == directive.arg(0),
            }
        } else {
            result matches Err(BoolConfigError::InvalidArgumentCount { span, expected, actual })
                && is_count_error(directive, span, expected@, actual, "1"@)
        }
    }

    open spec fn place(directive: AstDirective) -> SourceSpan {
        first_place(directive)
    }

    open spec fn wrapped(error: BoolConfigError) -> DirectiveError {
        DirectiveError::BoolConfig(error)
    }

    proof fn reads_one_way(
        directive: AstDirective,
        sources: SourceMap,
        value: Self,
        error: BoolConfigError,
    ) {
    }

    fn read(directive: &AstDirective, source_map: &SourceMap) -> (result: Result<Self, BoolConfigError>) {
        let arg = match only_arg(directive) {
            Some(arg) => arg,
            None => {
                return Err(
                    BoolConfigError::InvalidArgumentCount {
                        span: directive.span,
                        expected: "1",
                        actual: directive.args.len(),
                    },
                );
            },
        };
        if str_eq(arg.value.as_str(), "on") {
            Ok(BoolConfig(true))
        } else if str_eq(arg.value.as_str(), "off") {
            proof {
                reveal_strlit("on");
                reveal_strlit("off");
                assert("on"@.len() != "off"@.len());
            }
            Ok(BoolConfig(false))
        } else {
            Err(BoolConfigError::InvalidBoolean { span: arg.span, value: arg.value.clone() })
        }
    }

    fn place_of(directive: &AstDirective) -> (span: SourceSpan) {
        first_arg_place(directive)
    }

    fn wrap(error: BoolConfigError) -> (wrapped: DirectiveError) {
        DirectiveError::BoolConfig(error)
    }
}

/// Why a directive gives no path.
#[derive(Debug)]
pub enum PathConfigError {
    InvalidArgumentCount { span: SourceSpan, expected: &'static str, actual: usize },
}

impl PathConfigError {
    /// The message of this error.
    pub open spec fn text(self) -> Seq<char> {
        match self {
            PathConfigError::InvalidArgumentCount { .. } => "invalid path directive argument count"@,
        }
    }

    /// The message of this error.
    pub fn message(&self) -> (text: String)
        ensures
            text@ == self.text(),
    {
        match self {
            PathConfigError::InvalidArgumentCount { .. } => "invalid path directive argument count".to_owned(),
        }
    }

    /// The messages of this error and of what caused it, outermost first.
    pub open spec fn chain(self) -> Seq<Seq<char>> {
        seq![self.text()]
    }

    /// The messages of this error and of what caused it, outermost first.
    pub fn messages(&self) -> (list: Vec<String>)
        ensures
            texts(list@) == self.chain(),
    {
        let mut list: Vec<String> = Vec::new();
        list.push(self.message());
        assert(texts(list@) =~= self.chain());
        list
    }
}

impl DirectiveValue for PathConfig {
    type Error = PathConfigError;

    open spec fn reads(
        directive: AstDirective,
        sources: SourceMap,
        result: Result<Self, PathConfigError>,
    ) -> bool {
        if directive.args@.len() == 1 {
            result matches Ok(path) && path.0@ == encode_utf8(directive.arg(0))
        } else {
            result matches Err(PathConfigError::InvalidArgumentCount { span, expected, actual })
                && is_count_error(directive, span, expected@, actual, "1"@)
        }
    }

    open spec fn place(directive: AstDirective) -> SourceSpan {
        first_place(directive)
    }

    open spec fn wrapped(error: PathConfigError) -> DirectiveError {
        DirectiveError::PathConfig(error)
    }

    proof fn reads_one_way(
        directive: AstDirective,
        sources: SourceMap,
        value: Self,
        error: PathConfigError,
    ) {
    }

    fn read(directive: &AstDirective, source_map: &SourceMap) -> (result: Result<Self, PathConfigError>) {
        match only_arg(directive) {
            Some(arg) => Ok(PathConfig(UnixPath::new(arg.value.as_str()))),
            None => {
                return Err(
                    PathConfigError::InvalidArgumentCount {
                        span: directive.span,
                        expected: "1",
                        actual: directive.args.len(),
                    },
                );
            },
        }
    }

    fn place_of(directive: &AstDirective) -> (span: SourceSpan) {
        first_arg_place(directive)
    }

    fn wrap(error: PathConfigError) -> (wrapped: DirectiveError) {
        DirectiveError::PathConfig(error)
    }
}

/// A path that was found to exist.
#[derive(Debug)]
pub struct ExistingPathConfig(pub PathConfig);

/// Why a directive gives no existing path.
#[derive(Debug)]
pub enum ExistingPathConfigError {
    InvalidArgumentCount { span: SourceSpan, expected: &'static str, actual: usize },
    MissingPath { span: SourceSpan, path: UnixPath },
}

impl ExistingPathConfigError {
    /// The message of this error.
    pub open spec fn text(self) -> Seq<char> {
        match self {
            ExistingPathConfigError::InvalidArgumentCount { .. } => "invalid existing path directive argument count"@,
            ExistingPathConfigError::MissingPath { .. } => "configured path does not exist"@,
        }
    }

    /// The message of this error.
    pub fn message(&self) -> (text: String)
        ensures
            text@ == self.text(),
    {
        match self {
            ExistingPathConfigError::InvalidArgumentCount { .. } => "invalid existing path directive argument count".to_owned(),
            ExistingPathConfigError::MissingPath { .. } => "configured path does not exist".to_owned(),
        }
    }

    /// The messages of this error and of what caused it, outermost first.
    pub open spec fn chain(self) -> Seq<Seq<char>> {
        seq![self.text()]
    }

    /// The messages of this error and of what caused it, outermost first.
    pub fn messages(&self) -> (list: Vec<String>)
        ensures
            texts(list@) == self.chain(),
    {
        let mut list: Vec<String> = Vec::new();
        list.push(self.message());
        assert(texts(list@) =~= self.chain());
        list
    }
}

/// What reading the path that a directive names gives, given whether there is something at it.
pub open spec fn reads_existing_path(
    directive: AstDirective,
    found: bool,
    result: Result<ExistingPathConfig, ExistingPathConfigError>,
) -> bool {
    if directive.args@.len() != 1 {
        result matches Err(
            ExistingPathConfigError::InvalidArgumentCount { span, expected, actual },
        ) && is_count_error(directive, span, expected@, actual, "1"@)
    } else if found {
        result matches Ok(path) && path.0.0@ == encode_utf8(directive.arg(0))
    } else {
        result matches Err(ExistingPathConfigError::MissingPath { span, path }) && span
            == directive.args@[0].span && path@ == encode_utf8(directive.arg(0))
    }
}

impl ExistingPathConfig {
    /// The path that a directive names, where it names one.
    pub fn named_path(directive: &AstDirective) -> (path: Option<UnixPath>)
        ensures
            match path {
                Some(path) => directive.args@.len() == 1 && path@ == encode_utf8(directive.arg(0)),
                None => directive.args@.len() != 1,
            },
    {
        match only_arg(directive) {
            Some(arg) => Some(UnixPath::new(arg.value.as_str())),
            None => None,
        }
    }

    /// Reads the path that a directive names, given whether there is something at that path.
    pub fn read_with(directive: &AstDirective, found: bool) -> (result: Result<
        Self,
        ExistingPathConfigError,
    >)
        ensures
            reads_existing_path(*directive, found, result),
    {
        let path = match ExistingPathConfig::named_path(directive) {
            Some(path) => path,
            None => {
                return Err(
                    ExistingPathConfigError::InvalidArgumentCount {
                        span: directive.span,
                        expected: "1",
                        actual: directive.args.len(),
                    },
                );
            },
        };
        if found {
            Ok(ExistingPathConfig(PathConfig(path)))
        } else {
            Err(ExistingPathConfigError::MissingPath { span: directive.args[0].span, path })
        }
    }
}

/// Why a directive gives no absolute path.
#[derive(Debug)]
pub enum ResolvedConfigPathValueError {
    InvalidArgumentCount { span: SourceSpan, expected: &'static str, actual: usize },
    Normalize { span: SourceSpan, source: NormalizeDirectiveValueError },
}

impl ResolvedConfigPathValueError {
    /// The message of this error.
    pub open spec fn text(self) -> Seq<char> {
        match self {
            ResolvedConfigPathValueError::InvalidArgumentCount { .. } => "invalid path directive argument count"@,
            ResolvedConfigPathValueError::Normalize { .. } => "failed to resolve configured path"@,
        }
    }

    /// The message of this error.
    pub fn message(&self) -> (text: String)
        ensures
            text@ == self.text(),
    {
        match self {
            ResolvedConfigPathValueError::InvalidArgumentCount { .. } => "invalid path directive argument count".to_owned(),
            ResolvedConfigPathValueError::Normalize { .. } => "failed to resolve configured path".to_owned(),
        }
    }

    /// The messages of this error and of what caused it, outermost first.
    pub open spec fn chain(self) -> Seq<Seq<char>> {
        match self {
            ResolvedConfigPathValueError::Normalize { source, .. } => seq![self.text()] + source.chain(),
            _ => seq![self.text()],
        }
    }

    /// The messages of this error and of what caused it, outermost first.
    pub fn messages(&self) -> (list: Vec<String>)
        ensures
            texts(list@) == self.chain(),
    {
        let mut list: Vec<String> = Vec::new();
        list.push(self.message());
        match self {
            ResolvedConfigPathValueError::Normalize { source, .. } => {
                let mut causes = source.messages();
                let ghost head = list@;
                let ghost tail = causes@;
                list.append(&mut causes);
                assert(texts(list@) =~= texts(head) + texts(tail));
                assert(texts(head) =~= seq![self.text()]);
            },
            _ => {},
        }
        assert(texts(list@) =~= self.chain());
        list
    }
}

impl DirectiveValue for ResolvedConfigPath {
    type Error = ResolvedConfigPathValueError;

    open spec fn reads(
        directive: AstDirective,
        sources: SourceMap,
        result: Result<Self, ResolvedConfigPathValueError>,
    ) -> bool {
        if directive.args@.len() == 1 {
            let path = encode_utf8(directive.arg(0));
            let place = directive.args@[0].span;
            match result {
                Ok(full) => is_resolution(path, base_dir_of(sources, place), place, Ok(full@)),
                Err(ResolvedConfigPathValueError::Normalize { span, source }) => span == place
                    && is_resolution(path, base_dir_of(sources, place), place, Err(source)),
                Err(_) => false,
            }
        } else {
            result matches Err(ResolvedConfigPathValueError::InvalidArgumentCount { span, expected, actual })
                && is_count_error(directive, span, expected@, actual, "1"@)
        }
    }

    open spec fn place(directive: AstDirective) -> SourceSpan {
        first_place(directive)
    }

    open spec fn wrapped(error: ResolvedConfigPathValueError) -> DirectiveError {
        DirectiveError::ResolvedConfigPath(error)
    }

    proof fn reads_one_way(
        directive: AstDirective,
        sources: SourceMap,
        value: Self,
        error: ResolvedConfigPathValueError,
    ) {
    }

    fn read(directive: &AstDirective, source_map: &SourceMap) -> (result: Result<Self, ResolvedConfigPathValueError>) {
        let arg = match only_arg(directive) {
            Some(arg) => arg,
            None => {
                return Err(
                    ResolvedConfigPathValueError::InvalidArgumentCount {
                        span: directive.span,
                        expected: "1",
                        actual: directive.args.len(),
                    },
                );
            },
        };
        let path = UnixPath::new(arg.value.as_str());
        match resolve_config_path(&path, arg.span, source_map) {
            Ok(full) => Ok(full),
            Err(source) => Err(ResolvedConfigPathValueError::Normalize { span: arg.span, source }),
        }
    }

    fn place_of(directive: &AstDirective) -> (span: SourceSpan) {
        first_arg_place(directive)
    }

    fn wrap(error: ResolvedConfigPathValueError) -> (wrapped: DirectiveError) {
        DirectiveError::ResolvedConfigPath(error)
    }
}

} // verus!
