//! The `stun_server` block and what stands in it.
use vstd::prelude::*;

use crate::address::{socket_addr, AddrParseError, SocketAddr};
use crate::number::{parse_u16, unsigned_value, ParseIntError};
use crate::parse::ast::{lemma_named_step, named, AstDirective, Spanned};
use crate::parse::builtin::basic::{first_arg_place, only_arg};
use crate::parse::builtin::net::{address_list, SocketAddrsError};
use crate::parse::builtin::DirectiveError;
use crate::parse::decode::{first_place, is_count_error, DirectiveValue};
use crate::parse::source::{SourceMap, SourceSpan};
use crate::parse::types::{
    SocketAddrs, StunBindConfigValue, StunChangePort, StunServerConfigValue,
};
use crate::text::{lemma_split_not_empty, push_str, str_eq, texts};
use crate::parse::context::{ContextKey, SERVER};
use crate::parse::contract::{
    CascadePolicy, DirectiveShape, DuplicatePolicy, ReloadImpact, TransportPolicy,
};
use crate::parse::definition::{directive_in, TypedDirectiveDefinition};
use crate::parse::registry::{ConfigRegistry, DirectiveView, RegistryView};
use crate::parse::value::ValueKind;

verus! {

/// Why a `bind` directive gives no binding.
#[derive(Debug)]
#[allow(inconsistent_fields)]
pub enum StunBindConfigValueError {
    InvalidArgumentCount { span: SourceSpan, expected: &'static str, actual: usize },
    SocketAddr { span: SourceSpan, source: AddrParseError },
    Port { span: SourceSpan, source: ParseIntError },
    InvalidOption { span: SourceSpan },
}

impl StunBindConfigValueError {
    /// The message of this error.
    pub open spec fn text(self) -> Seq<char> {
        match self {
            StunBindConfigValueError::InvalidArgumentCount { .. } => "invalid stun_server bind directive argument count"@,
            StunBindConfigValueError::SocketAddr { .. } => "invalid stun_server bind socket address directive value"@,
            StunBindConfigValueError::Port { .. } => "invalid stun_server bind change_port directive value"@,
            StunBindConfigValueError::InvalidOption { .. } => "invalid stun_server bind directive option"@,
        }
    }

    /// The message of this error.
    pub fn message(&self) -> (text: String)
        ensures
            text@ == self.text(),
    {
        match self {
            StunBindConfigValueError::InvalidArgumentCount { .. } => "invalid stun_server bind directive argument count".to_owned(),
            StunBindConfigValueError::SocketAddr { .. } => "invalid stun_server bind socket address directive value".to_owned(),
            StunBindConfigValueError::Port { .. } => "invalid stun_server bind change_port directive value".to_owned(),
            StunBindConfigValueError::InvalidOption { .. } => "invalid stun_server bind directive option".to_owned(),
        }
    }

    /// The messages of this error and of what caused it, outermost first.
    pub open spec fn chain(self) -> Seq<Seq<char>> {
        match self {
            StunBindConfigValueError::SocketAddr { source, .. } => seq![self.text(), source.text()],
            StunBindConfigValueError::Port { source, .. } => seq![self.text(), source.text()],
            _ => seq![self.text()],
        }
    }

    /// The messages of this error and of what caused it, outermost first.
    pub fn messages(&self) -> (list: Vec<String>)
        ensures
            texts(list@) == self.chain(),
    {
        let mut list: Vec<String> = Vec::new();
        list.push(self.message());
        match self {
            StunBindConfigValueError::SocketAddr { source, .. } => {
                list.push(source.message());
            },
            StunBindConfigValueError::Port { source, .. } => {
                list.push(source.message());
            },
            _ => {},
        }
        assert(texts(list@) =~= self.chain());
        list
    }
}

/// Whether the word at `at` names an option and has a value behind it.
pub open spec fn is_bind_option(args: Seq<Spanned<String>>, at: int) -> bool {
    at + 1 < args.len() && (args[at].value@ == "outer_addr"@ || args[at].value@ == "change_addr"@
        || args[at].value@ == "change_port"@)
}

/// A binding with the option at `at` set, where its value can be read. Of an option that is given
/// twice the last one stands.
pub open spec fn with_bind_option(
    args: Seq<Spanned<String>>,
    at: int,
    bind: StunBindConfigValue,
) -> Option<StunBindConfigValue> {
    let value = args[at + 1].value@;
    if args[at].value@ == "change_port"@ {
        match unsigned_value(value, 0xffff) {
            Ok(port) => Some(StunBindConfigValue { change_port: Some(port as u16), ..bind }),
            Err(_) => None,
        }
    } else {
        match socket_addr(value) {
            Some(addr) => if args[at].value@ == "outer_addr"@ {
                Some(StunBindConfigValue { outer_addr: Some(addr), ..bind })
            } else {
                Some(StunBindConfigValue { change_addr: Some(addr), ..bind })
            },
            None => None,
        }
    }
}

/// What reading the options from `at` on gives.
pub open spec fn reads_bind_options(
    args: Seq<Spanned<String>>,
    at: int,
    bind: StunBindConfigValue,
    result: Result<StunBindConfigValue, StunBindConfigValueError>,
) -> bool
    decreases args.len() - at,
{
    if at >= args.len() {
        result == Ok::<StunBindConfigValue, StunBindConfigValueError>(bind)
    } else if !is_bind_option(args, at) {
        result matches Err(StunBindConfigValueError::InvalidOption { span }) && span
            == args[at].span
    } else {
        match with_bind_option(args, at, bind) {
            Some(more) => reads_bind_options(args, at + 2, more, result),
            None => if args[at].value@ == "change_port"@ {
                result matches Err(StunBindConfigValueError::Port { span, source }) && span
                    == args[at + 1].span && unsigned_value(args[at + 1].value@, 0xffff) == Err::<
                    nat,
                    ParseIntError,
                >(source)
            } else {
                result matches Err(StunBindConfigValueError::SocketAddr { span, .. }) && span
                    == args[at + 1].span
            },
        }
    }
}

/// The binding of the options from `at` on, where they can all be read.
pub open spec fn bind_options(
    args: Seq<Spanned<String>>,
    at: int,
    bind: StunBindConfigValue,
) -> Option<StunBindConfigValue>
    decreases args.len() - at,
{
    if at >= args.len() {
        Some(bind)
    } else if !is_bind_option(args, at) {
        None
    } else {
        match with_bind_option(args, at, bind) {
            Some(more) => bind_options(args, at + 2, more),
            None => None,
        }
    }
}

/// A binding to an address, without options.
pub open spec fn plain_bind(addr: SocketAddr) -> StunBindConfigValue {
    StunBindConfigValue { bind: addr, outer_addr: None, change_addr: None, change_port: None }
}

/// The binding that the arguments of `bind` give: an address, then options with their values.
pub open spec fn bind_value(args: Seq<Spanned<String>>) -> Option<StunBindConfigValue> {
    if args.len() == 0 {
        None
    } else {
        match socket_addr(args[0].value@) {
            Some(addr) => bind_options(args, 1, plain_bind(addr)),
            None => None,
        }
    }
}

/// Options are read exactly where they give a binding, and then as that binding.
proof fn lemma_bind_options(
    args: Seq<Spanned<String>>,
    at: int,
    bind: StunBindConfigValue,
    result: Result<StunBindConfigValue, StunBindConfigValueError>,
)
    requires
        reads_bind_options(args, at, bind, result),
    ensures
        match result {
            Ok(value) => bind_options(args, at, bind) == Some(value),
            Err(_) => bind_options(args, at, bind) is None,
        },
    decreases args.len() - at,
{
    if at < args.len() && is_bind_option(args, at) {
        match with_bind_option(args, at, bind) {
            Some(more) => lemma_bind_options(args, at + 2, more, result),
            None => {},
        }
    }
}

proof fn lemma_option_names()
    ensures
        "outer_addr"@ != "change_addr"@,
        "outer_addr"@ != "change_port"@,
        "change_addr"@ != "change_port"@,
        "bind"@ != "outer_addr"@,
        "bind"@ != "change_addr"@,
        "bind"@ != "change_port"@,
{
    reveal_strlit("outer_addr");
    reveal_strlit("change_addr");
    reveal_strlit("change_port");
    reveal_strlit("bind");
    assert("outer_addr"@.len() == 10);
    assert("change_addr"@.len() == 11);
    assert("change_port"@.len() == 11);
    assert("bind"@.len() == 4);
    assert("change_addr"@[7] != "change_port"@[7]);
}

impl DirectiveValue for StunBindConfigValue {
    type Error = StunBindConfigValueError;

    open spec fn reads(
        directive: AstDirective,
        sources: SourceMap,
        result: Result<Self, StunBindConfigValueError>,
    ) -> bool {
        &&& result is Ok == (bind_value(directive.args@) is Some)
        &&& result matches Ok(value) ==> bind_value(directive.args@) == Some(value)
        &&& if directive.args@.len() == 0 {
            result matches Err(StunBindConfigValueError::InvalidArgumentCount { span, expected, actual })
                && is_count_error(directive, span, expected@, actual, "at least 1"@)
        } else {
            match socket_addr(directive.arg(0)) {
                Some(addr) => reads_bind_options(directive.args@, 1, plain_bind(addr), result),
                None => result matches Err(StunBindConfigValueError::SocketAddr { span, .. })
                    && span == directive.args@[0].span,
            }
        }
    }

    open spec fn place(directive: AstDirective) -> SourceSpan {
        directive.span
    }

    open spec fn wrapped(error: StunBindConfigValueError) -> DirectiveError {
        DirectiveError::StunBindConfigValue(error)
    }

    proof fn reads_one_way(
        directive: AstDirective,
        sources: SourceMap,
        value: Self,
        error: StunBindConfigValueError,
    ) {
    }

    fn read(directive: &AstDirective, source_map: &SourceMap) -> (result: Result<Self, StunBindConfigValueError>) {
        let args = &directive.args;
        if args.len() == 0 {
            return Err(
                StunBindConfigValueError::InvalidArgumentCount {
                    span: directive.span,
                    expected: "at least 1",
                    actual: directive.args.len(),
                },
            );
        }
        let bind = match SocketAddr::parse(args[0].value.as_str()) {
            Ok(addr) => addr,
            Err(source) => {
                return Err(StunBindConfigValueError::SocketAddr { span: args[0].span, source });
            },
        };
        let mut value = StunBindConfigValue {
            bind,
            outer_addr: None,
            change_addr: None,
            change_port: None,
        };
        let mut index: usize = 1;
        proof {
            lemma_option_names();
        }
        while index < args.len()
            invariant
                1 <= index <= args@.len(),
                args == directive.args,
                "outer_addr"@ != "change_addr"@,
                "outer_addr"@ != "change_port"@,
                "change_addr"@ != "change_port"@,
                socket_addr(args@[0].value@) == Some(bind),
                forall|result: Result<StunBindConfigValue, StunBindConfigValueError>|
                    #[trigger] reads_bind_options(args@, index as int, value, result)
                        ==> reads_bind_options(args@, 1, plain_bind(bind), result),
            decreases args@.len() - index,
        {
            let name = args[index].value.as_str();
            let last = index + 1 >= args.len();
            let ghost before = value;
            if !last && str_eq(name, "outer_addr") {
                match SocketAddr::parse(args[index + 1].value.as_str()) {
                    Ok(addr) => {
                        value.outer_addr = Some(addr);
                    },
                    Err(source) => {
                        let result = Err(
                            StunBindConfigValueError::SocketAddr {
                                span: args[index + 1].span,
                                source,
                            },
                        );
                        assert(reads_bind_options(args@, index as int, value, result));
                        proof {
                            lemma_bind_options(args@, 1, plain_bind(bind), result);
                        }
                        return result;
                    },
                }
            } else if !last && str_eq(name, "change_addr") {
                match SocketAddr::parse(args[index + 1].value.as_str()) {
                    Ok(addr) => {
                        value.change_addr = Some(addr);
                    },
                    Err(source) => {
                        let result = Err(
                            StunBindConfigValueError::SocketAddr {
                                span: args[index + 1].span,
                                source,
                            },
                        );
                        assert(reads_bind_options(args@, index as int, value, result));
                        proof {
                            lemma_bind_options(args@, 1, plain_bind(bind), result);
                        }
                        return result;
                    },
                }
            } else if !last && str_eq(name, "change_port") {
                match parse_u16(args[index + 1].value.as_str()) {
                    Ok(port) => {
                        value.change_port = Some(port);
                    },
                    Err(source) => {
                        let result = Err(
                            StunBindConfigValueError::Port { span: args[index + 1].span, source },
                        );
                        assert(reads_bind_options(args@, index as int, value, result));
                        proof {
                            lemma_bind_options(args@, 1, plain_bind(bind), result);
                        }
                        return result;
                    },
                }
            } else {
                let result = Err(StunBindConfigValueError::InvalidOption { span: args[index].span });
                assert(reads_bind_options(args@, index as int, value, result));
                proof {
                    lemma_bind_options(args@, 1, plain_bind(bind), result);
                }
                return result;
            }
            proof {
                assert(with_bind_option(args@, index as int, before) == Some(value));
                assert forall|result: Result<StunBindConfigValue, StunBindConfigValueError>|
                    #[trigger] reads_bind_options(
                        args@,
                        index + 2,
                        value,
                        result,
                    ) implies reads_bind_options(args@, 1, plain_bind(bind), result) by {
                    assert(reads_bind_options(args@, index as int, before, result));
                }
            }
            index += 2;
        }
        let result = Ok(value);
        assert(reads_bind_options(args@, index as int, value, result));
        proof {
            lemma_bind_options(args@, 1, plain_bind(bind), result);
        }
        result
    }

    fn place_of(directive: &AstDirective) -> (span: SourceSpan) {
        directive.span
    }

    fn wrap(error: StunBindConfigValueError) -> (wrapped: DirectiveError) {
        DirectiveError::StunBindConfigValue(error)
    }
}

/// Why a directive gives no change port.
#[derive(Debug)]
pub enum StunChangePortError {
    InvalidArgumentCount { span: SourceSpan, expected: &'static str, actual: usize },
    Port { span: SourceSpan, source: ParseIntError },
}

impl StunChangePortError {
    /// The message of this error.
    pub open spec fn text(self) -> Seq<char> {
        match self {
            StunChangePortError::InvalidArgumentCount { .. } => "invalid stun_server change_port directive argument count"@,
            StunChangePortError::Port { .. } => "invalid stun_server change_port directive value"@,
        }
    }

    /// The message of this error.
    pub fn message(&self) -> (text: String)
        ensures
            text@ == self.text(),
    {
        match self {
            StunChangePortError::InvalidArgumentCount { .. } => "invalid stun_server change_port directive argument count".to_owned(),
            StunChangePortError::Port { .. } => "invalid stun_server change_port directive value".to_owned(),
        }
    }

    /// The messages of this error and of what caused it, outermost first.
    pub open spec fn chain(self) -> Seq<Seq<char>> {
        match self {
            StunChangePortError::Port { source, .. } => seq![self.text(), source.text()],
            _ => seq![self.text()],
        }
    }

    /// The messages of this error and of what caused it, outermost first.
    pub fn messages(&self) -> (list: Vec<String>)
        ensures
            texts(list@) == self.chain(),
    {
        let mut list: Vec<String> = Vec::new();
        list.push(self.message());
        match self {
            StunChangePortError::Port { source, .. } => {
                list.push(source.message());
            },
            _ => {},
        }
        assert(texts(list@) =~= self.chain());
        list
    }
}

impl DirectiveValue for StunChangePort {
    type Error = StunChangePortError;

    open spec fn reads(
        directive: AstDirective,
        sources: SourceMap,
        result: Result<Self, StunChangePortError>,
    ) -> bool {
        if directive.args@.len() == 1 {
            match result {
                Ok(port) => unsigned_value(directive.arg(0), 0xffff) == Ok::<nat, ParseIntError>(
                    port.0 as nat,
                ),
                Err(StunChangePortError::Port { span, source }) => span == directive.args@[0].span
                    && unsigned_value(directive.arg(0), 0xffff) == Err::<nat, ParseIntError>(source),
                Err(_) => false,
            }
        } else {
            result matches Err(StunChangePortError::InvalidArgumentCount { span, expected, actual })
                && is_count_error(directive, span, expected@, actual, "1"@)
        }
    }

    open spec fn place(directive: AstDirective) -> SourceSpan {
        first_place(directive)
    }

    open spec fn wrapped(error: StunChangePortError) -> DirectiveError {
        DirectiveError::StunChangePort(error)
    }

    proof fn reads_one_way(
        directive: AstDirective,
        sources: SourceMap,
        value: Self,
        error: StunChangePortError,
    ) {
    }

    fn read(directive: &AstDirective, source_map: &SourceMap) -> (result: Result<Self, StunChangePortError>) {
        let arg = match only_arg(directive) {
            Some(arg) => arg,
            None => {
                return Err(
                    StunChangePortError::InvalidArgumentCount {
                        span: directive.span,
                        expected: "1",
                        actual: directive.args.len(),
                    },
                );
            },
        };
        match parse_u16(arg.value.as_str()) {
            Ok(port) => Ok(StunChangePort(port)),
            Err(source) => Err(StunChangePortError::Port { span: arg.span, source }),
        }
    }

    fn place_of(directive: &AstDirective) -> (span: SourceSpan) {
        first_arg_place(directive)
    }

    fn wrap(error: StunChangePortError) -> (wrapped: DirectiveError) {
        DirectiveError::StunChangePort(error)
    }
}

/// Why a `stun_server` directive is not acceptable.
#[derive(Debug)]
#[allow(inconsistent_fields)]
pub enum StunServerConfigValueError {
    ExpectedBlock { span: SourceSpan },
    UnknownChild { name: String, span: SourceSpan },
    ExpectedLeaf { name: String, span: SourceSpan },
    DuplicateFallback { name: String, span: SourceSpan },
    Bind { source: StunBindConfigValueError },
    Address { source: SocketAddrsError },
    ChangePort { source: StunChangePortError },
}

impl StunServerConfigValueError {
    /// The message of this error.
    pub open spec fn text(self) -> Seq<char> {
        match self {
            StunServerConfigValueError::ExpectedBlock { .. } => "stun_server must use block form"@,
            StunServerConfigValueError::UnknownChild { name, .. } => "unknown stun_server child directive `"@ + name@ + "`"@,
            StunServerConfigValueError::ExpectedLeaf { name, .. } => "stun_server child directive `"@ + name@ + "` must use leaf form"@,
            StunServerConfigValueError::DuplicateFallback { name, .. } => "duplicate stun_server fallback directive `"@ + name@ + "`"@,
            StunServerConfigValueError::Bind { .. } => "invalid stun_server bind directive"@,
            StunServerConfigValueError::Address { .. } => "invalid stun_server address fallback"@,
            StunServerConfigValueError::ChangePort { .. } => "invalid stun_server change_port fallback"@,
        }
    }

    /// The message of this error.
    pub fn message(&self) -> (text: String)
        ensures
            text@ == self.text(),
    {
        match self {
            StunServerConfigValueError::ExpectedBlock { .. } => "stun_server must use block form".to_owned(),
            StunServerConfigValueError::UnknownChild { name, .. } => {
                let mut text = "unknown stun_server child directive `".to_owned();
                push_str(&mut text, name.as_str());
                push_str(&mut text, "`");
                text
            },
            StunServerConfigValueError::ExpectedLeaf { name, .. } => {
                let mut text = "stun_server child directive `".to_owned();
                push_str(&mut text, name.as_str());
                push_str(&mut text, "` must use leaf form");
                text
            },
            StunServerConfigValueError::DuplicateFallback { name, .. } => {
                let mut text = "duplicate stun_server fallback directive `".to_owned();
                push_str(&mut text, name.as_str());
                push_str(&mut text, "`");
                text
            },
            StunServerConfigValueError::Bind { .. } => "invalid stun_server bind directive".to_owned(),
            StunServerConfigValueError::Address { .. } => "invalid stun_server address fallback".to_owned(),
            StunServerConfigValueError::ChangePort { .. } => "invalid stun_server change_port fallback".to_owned(),
        }
    }

    /// The messages of this error and of what caused it, outermost first.
    pub open spec fn chain(self) -> Seq<Seq<char>> {
        match self {
            StunServerConfigValueError::Bind { source } => seq![self.text()] + source.chain(),
            StunServerConfigValueError::Address { source } => seq![self.text()] + source.chain(),
            StunServerConfigValueError::ChangePort { source } => seq![self.text()] + source.chain(),
            _ => seq![self.text()],
        }
    }

    /// The messages of this error and of what caused it, outermost first.
    pub fn messages(&self) -> (list: Vec<String>)
        ensures
            texts(list@) == self.chain(),
    {
        let mut list: Vec<String> = Vec::new();
        list.push(self.message());
        match self {
            StunServerConfigValueError::Bind { source } => {
                let mut causes = source.messages();
                let ghost head = list@;
                let ghost tail = causes@;
                list.append(&mut causes);
                assert(texts(list@) =~= texts(head) + texts(tail));
                assert(texts(head) =~= seq![self.text()]);
            },
            StunServerConfigValueError::Address { source } => {
                let mut causes = source.messages();
                let ghost head = list@;
                let ghost tail = causes@;
                list.append(&mut causes);
                assert(texts(list@) =~= texts(head) + texts(tail));
                assert(texts(head) =~= seq![self.text()]);
            },
            StunServerConfigValueError::ChangePort { source } => {
                let mut causes = source.messages();
                let ghost head = list@;
                let ghost tail = causes@;
                list.append(&mut causes);
                assert(texts(list@) =~= texts(head) + texts(tail));
                assert(texts(head) =~= seq![self.text()]);
            },
            _ => {},
        }
        assert(texts(list@) =~= self.chain());
        list
    }
}

/// Whether a name is that of a fallback for the bindings of the block.
pub open spec fn is_fallback(name: Seq<char>) -> bool {
    name == "outer_addr"@ || name == "change_addr"@ || name == "change_port"@
}

/// Whether one of the first `at` directives is spelled like the one at `at`.
pub open spec fn came_before(children: Seq<AstDirective>, at: int) -> bool {
    named(children.take(at), children[at].name_text()).len() > 0
}

/// The first address of a fallback directive.
pub open spec fn fallback_addr(directive: AstDirective) -> Option<SocketAddr> {
    if directive.args@.len() == 1 {
        match address_list(directive.arg(0)) {
            Some(addrs) => Some(addrs[0]),
            None => None,
        }
    } else {
        None
    }
}

/// The port of a fallback directive.
pub open spec fn fallback_port(directive: AstDirective) -> Option<u16> {
    if directive.args@.len() == 1 {
        match unsigned_value(directive.arg(0), 0xffff) {
            Ok(port) => Some(port as u16),
            Err(_) => None,
        }
    } else {
        None
    }
}

/// Whether a directive of a `stun_server` block is in order, given whether one of the same name
/// came before.
pub open spec fn stun_child_fits(child: AstDirective, repeated: bool) -> bool {
    child.block() is None && if child.name_text() == "bind"@ {
        bind_value(child.args@) is Some
    } else if is_fallback(child.name_text()) {
        !repeated && if child.name_text() == "change_port"@ {
            fallback_port(child) is Some
        } else {
            fallback_addr(child) is Some
        }
    } else {
        false
    }
}

/// Whether the directive at `at` of a `stun_server` block is in order.
pub open spec fn stun_child_ok(children: Seq<AstDirective>, at: int) -> bool {
    stun_child_fits(children[at], came_before(children, at))
}

/// What is wrong with a directive of a `stun_server` block, given whether one of the same name
/// came before.
pub open spec fn stun_child_fault(
    child: AstDirective,
    repeated: bool,
    sources: SourceMap,
    error: StunServerConfigValueError,
) -> bool {
    if child.block() is Some {
        error matches StunServerConfigValueError::ExpectedLeaf { name, span } && name@
            == child.name_text() && span == child.span
    } else if child.name_text() == "bind"@ {
        error matches StunServerConfigValueError::Bind { source } && StunBindConfigValue::reads(
            child,
            sources,
            Err(source),
        )
    } else if is_fallback(child.name_text()) {
        if repeated {
            error matches StunServerConfigValueError::DuplicateFallback { name, span } && name@
                == child.name_text() && span == child.span
        } else if child.name_text() == "change_port"@ {
            error matches StunServerConfigValueError::ChangePort { source } && StunChangePort::reads(
                child,
                sources,
                Err(source),
            )
        } else {
            error matches StunServerConfigValueError::Address { source } && SocketAddrs::reads(
                child,
                sources,
                Err(source),
            )
        }
    } else {
        error matches StunServerConfigValueError::UnknownChild { name, span } && name@
            == child.name_text() && span == child.name.span
    }
}

/// What is wrong with the directive at `at` of a `stun_server` block.
pub open spec fn stun_child_error(
    children: Seq<AstDirective>,
    at: int,
    sources: SourceMap,
    error: StunServerConfigValueError,
) -> bool {
    stun_child_fault(children[at], came_before(children, at), sources, error)
}

/// What the fallbacks of a block are.
pub struct StunFallbacks {
    pub outer_addr: Option<SocketAddr>,
    pub change_addr: Option<SocketAddr>,
    pub change_port: Option<u16>,
}

/// The fallbacks that a list of directives gives: each from the first directive of its name.
pub open spec fn fallbacks_of(children: Seq<AstDirective>) -> StunFallbacks {
    StunFallbacks {
        outer_addr: if named(children, "outer_addr"@).len() > 0 {
            fallback_addr(named(children, "outer_addr"@)[0])
        } else {
            None
        },
        change_addr: if named(children, "change_addr"@).len() > 0 {
            fallback_addr(named(children, "change_addr"@)[0])
        } else {
            None
        },
        change_port: if named(children, "change_port"@).len() > 0 {
            fallback_port(named(children, "change_port"@)[0])
        } else {
            None
        },
    }
}

/// One of two optional values, the first before the second.
pub open spec fn first_of<T>(one: Option<T>, other: Option<T>) -> Option<T> {
    if one is Some {
        one
    } else {
        other
    }
}

/// A binding with the fallbacks of its block in place of what it does not say itself.
pub open spec fn with_fallbacks(
    bind: StunBindConfigValue,
    fallbacks: StunFallbacks,
) -> StunBindConfigValue {
    StunBindConfigValue {
        bind: bind.bind,
        outer_addr: first_of(bind.outer_addr, fallbacks.outer_addr),
        change_addr: first_of(bind.change_addr, fallbacks.change_addr),
        change_port: first_of(bind.change_port, fallbacks.change_port),
    }
}

/// The bindings of a list of directives, in order and without fallbacks.
pub open spec fn binds_of(children: Seq<AstDirective>) -> Seq<StunBindConfigValue> {
    named(children, "bind"@).map_values(|child: AstDirective| bind_value(child.args@)->0)
}

/// The bindings of a block, in order.
pub open spec fn stun_binds(children: Seq<AstDirective>) -> Seq<StunBindConfigValue> {
    binds_of(children).map_values(
        |bind: StunBindConfigValue| with_fallbacks(bind, fallbacks_of(children)),
    )
}

/// The values of a block's fallbacks never replace what a binding says itself.
pub proof fn explicit_values_override_fallbacks(
    bind: StunBindConfigValue,
    fallbacks: StunFallbacks,
)
    ensures
        with_fallbacks(bind, fallbacks).bind == bind.bind,
        bind.outer_addr is Some ==> with_fallbacks(bind, fallbacks).outer_addr == bind.outer_addr,
        bind.change_addr is Some ==> with_fallbacks(bind, fallbacks).change_addr
            == bind.change_addr,
        bind.change_port is Some ==> with_fallbacks(bind, fallbacks).change_port
            == bind.change_port,
{
}

/// A block has as many bindings as `bind` directives, whatever its fallbacks are.
pub proof fn blocks_keep_every_bind(children: Seq<AstDirective>)
    ensures
        stun_binds(children).len() == named(children, "bind"@).len(),
        forall|i: int|
            0 <= i < stun_binds(children).len() ==> (#[trigger] stun_binds(children)[i]).bind == (
            bind_value(named(children, "bind"@)[i].args@)->0).bind,
{
}

fn or_addr(one: Option<SocketAddr>, other: Option<SocketAddr>) -> (addr: Option<SocketAddr>)
    ensures
        addr == first_of(one, other),
{
    if one.is_some() {
        one
    } else {
        other
    }
}

fn or_port(one: Option<u16>, other: Option<u16>) -> (port: Option<u16>)
    ensures
        port == first_of(one, other),
{
    if one.is_some() {
        one
    } else {
        other
    }
}

/// The first address of a fallback directive.
fn read_fallback_addr(child: &AstDirective, source_map: &SourceMap) -> (result: Result<
    SocketAddr,
    SocketAddrsError,
>)
    ensures
        match result {
            Ok(addr) => fallback_addr(*child) == Some(addr),
            Err(error) => fallback_addr(*child) is None && SocketAddrs::reads(
                *child,
                *source_map,
                Err(error),
            ),
        },
{
    match SocketAddrs::read(child, source_map) {
        Ok(addrs) => {
            proof {
                lemma_split_not_empty(child.arg(0), ',');
            }
            Ok(addrs.0[0])
        },
        Err(error) => Err(error),
    }
}

/// What a directive of a `stun_server` block gives.
enum StunChild {
    Bind(StunBindConfigValue),
    OuterAddr(SocketAddr),
    ChangeAddr(SocketAddr),
    ChangePort(u16),
}

/// Whether a directive of a `stun_server` block gives a value.
spec fn gives(child: AstDirective, value: StunChild) -> bool {
    match value {
        StunChild::Bind(bind) => child.name_text() == "bind"@ && bind_value(child.args@) == Some(
            bind,
        ),
        StunChild::OuterAddr(addr) => child.name_text() == "outer_addr"@ && fallback_addr(child)
            == Some(addr),
        StunChild::ChangeAddr(addr) => child.name_text() == "change_addr"@ && fallback_addr(child)
            == Some(addr),
        StunChild::ChangePort(port) => child.name_text() == "change_port"@ && fallback_port(child)
            == Some(port),
    }
}

/// Reads a directive of a `stun_server` block, given which fallbacks came before.
fn read_child(
    child: &AstDirective,
    outer_addr: bool,
    change_addr: bool,
    change_port: bool,
    source_map: &SourceMap,
) -> (result: Result<StunChild, StunServerConfigValueError>)
    ensures
        ({
            let repeated = if child.name_text() == "outer_addr"@ {
                outer_addr
            } else if child.name_text() == "change_addr"@ {
                change_addr
            } else {
                change_port
            };
            match result {
                Ok(value) => stun_child_fits(*child, repeated) && gives(*child, value),
                Err(error) => stun_child_fault(*child, repeated, *source_map, error),
            }
        }),
{
    proof {
        lemma_option_names();
    }
    if !child.is_leaf() {
        return Err(
            StunServerConfigValueError::ExpectedLeaf {
                name: child.name.value.clone(),
                span: child.span,
            },
        );
    }
    if child.is_named("bind") {
        match StunBindConfigValue::read(child, source_map) {
            Ok(bind) => Ok(StunChild::Bind(bind)),
            Err(source) => Err(StunServerConfigValueError::Bind { source }),
        }
    } else if child.is_named("outer_addr") && !outer_addr {
        match read_fallback_addr(child, source_map) {
            Ok(addr) => Ok(StunChild::OuterAddr(addr)),
            Err(source) => Err(StunServerConfigValueError::Address { source }),
        }
    } else if child.is_named("change_addr") && !change_addr {
        match read_fallback_addr(child, source_map) {
            Ok(addr) => Ok(StunChild::ChangeAddr(addr)),
            Err(source) => Err(StunServerConfigValueError::Address { source }),
        }
    } else if child.is_named("change_port") && !change_port {
        match StunChangePort::read(child, source_map) {
            Ok(port) => Ok(StunChild::ChangePort(port.0)),
            Err(source) => Err(StunServerConfigValueError::ChangePort { source }),
        }
    } else if child.is_named("outer_addr") || child.is_named("change_addr") || child.is_named(
        "change_port",
    ) {
        Err(
            StunServerConfigValueError::DuplicateFallback {
                name: child.name.value.clone(),
                span: child.span,
            },
        )
    } else {
        Err(
            StunServerConfigValueError::UnknownChild {
                name: child.name.value.clone(),
                span: child.name.span,
            },
        )
    }
}

/// Fills in the fallbacks of a block.
fn fill_in(
    binds: &Vec<StunBindConfigValue>,
    outer_addr: Option<SocketAddr>,
    change_addr: Option<SocketAddr>,
    change_port: Option<u16>,
) -> (filled: Vec<StunBindConfigValue>)
    ensures
        filled@ == binds@.map_values(
            |bind: StunBindConfigValue|
                with_fallbacks(bind, StunFallbacks { outer_addr, change_addr, change_port }),
        ),
{
    let ghost fallbacks = StunFallbacks { outer_addr, change_addr, change_port };
    let mut filled: Vec<StunBindConfigValue> = Vec::new();
    let mut i: usize = 0;
    while i < binds.len()
        invariant
            i <= binds@.len(),
            filled@.len() == i,
            fallbacks == (StunFallbacks { outer_addr, change_addr, change_port }),
            forall|k: int| 0 <= k < i ==> filled@[k] == with_fallbacks(binds@[k], fallbacks),
        decreases binds@.len() - i,
    {
        let bind = binds[i];
        filled.push(
            StunBindConfigValue {
                bind: bind.bind,
                outer_addr: or_addr(bind.outer_addr, outer_addr),
                change_addr: or_addr(bind.change_addr, change_addr),
                change_port: or_port(bind.change_port, change_port),
            },
        );
        i += 1;
    }
    filled
}

/// What reading the directives of a `stun_server` block gives.
pub open spec fn reads_stun_block(
    children: Seq<AstDirective>,
    sources: SourceMap,
    result: Result<Seq<StunBindConfigValue>, StunServerConfigValueError>,
) -> bool {
    match result {
        Ok(binds) => {
            &&& forall|i: int| 0 <= i < children.len() ==> #[trigger] stun_child_ok(children, i)
            &&& binds == stun_binds(children)
        },
        Err(error) => exists|at: int|
            {
                &&& 0 <= at < children.len()
                &&& forall|i: int| 0 <= i < at ==> #[trigger] stun_child_ok(children, i)
                &&& #[trigger] stun_child_error(children, at, sources, error)
            },
    }
}

/// The directives of a name are those of the list with that name, as often as they occur.
proof fn lemma_named_counts(list: Seq<AstDirective>, name: Seq<char>, child: AstDirective)
    ensures
        named(list, name).to_multiset().count(child) == (if child.name_text() == name {
            list.to_multiset().count(child)
        } else {
            0
        }),
    decreases list.len(),
{
    broadcast use vstd::seq_lib::group_to_multiset_ensures;

    if list.len() > 0 {
        lemma_named_counts(list.drop_last(), name, child);
        assert(list =~= list.drop_last().push(list.last()));
    } else {
        assert(list =~= seq![]);
    }
}

/// The first directives of a list have no more of a name than the whole list, and one less where the
/// next is of that name.
proof fn lemma_named_before(list: Seq<AstDirective>, at: int, name: Seq<char>)
    requires
        0 <= at < list.len(),
    ensures
        named(list.take(at), name).len() + (if list[at].name_text() == name {
            1int
        } else {
            0
        }) <= named(list, name).len(),
    decreases list.len(),
{
    if at == list.len() - 1 {
        assert(list.take(at) =~= list.drop_last());
    } else {
        assert(list.drop_last().take(at) =~= list.take(at));
        lemma_named_before(list.drop_last(), at, name);
    }
}

/// A block that is in order has each fallback once at most.
proof fn lemma_single_fallback(children: Seq<AstDirective>, name: Seq<char>, count: int)
    requires
        forall|i: int| 0 <= i < children.len() ==> #[trigger] stun_child_ok(children, i),
        is_fallback(name),
        0 <= count <= children.len(),
    ensures
        named(children.take(count), name).len() <= 1,
    decreases count,
{
    if count > 0 {
        lemma_option_names();
        lemma_single_fallback(children, name, count - 1);
        lemma_named_step(children, count - 1, name);
        assert(stun_child_ok(children, count - 1));
    }
}

/// Two blocks with the same directives give the same fallback, where one of them has it once at most.
proof fn lemma_same_fallback(one: Seq<AstDirective>, other: Seq<AstDirective>, name: Seq<char>)
    requires
        one.to_multiset() == other.to_multiset(),
        named(one, name).len() <= 1,
    ensures
        named(other, name) == named(one, name),
{
    broadcast use vstd::seq_lib::group_to_multiset_ensures;

    let here = named(one, name);
    let there = named(other, name);
    assert forall|child: AstDirective| #[trigger] here.to_multiset().count(child)
        == there.to_multiset().count(child) by {
        lemma_named_counts(one, name, child);
        lemma_named_counts(other, name, child);
    }
    assert(here.to_multiset() =~= there.to_multiset());
    assert(here.len() == here.to_multiset().len());
    assert(there.len() == there.to_multiset().len());
    if here.len() == 1 {
        assert(here.contains(here[0]));
        assert(there.to_multiset().count(here[0]) > 0);
        assert(there.contains(here[0]));
    }
    assert(there =~= here);
}

/// The fallbacks of a block may stand anywhere: where its directives are put into another order that
/// keeps the order of the bindings, the block gives the same bindings.
pub proof fn fallbacks_stand_anywhere(
    one: Seq<AstDirective>,
    other: Seq<AstDirective>,
    sources: SourceMap,
    binds: Seq<StunBindConfigValue>,
)
    requires
        one.to_multiset() == other.to_multiset(),
        named(one, "bind"@) == named(other, "bind"@),
        reads_stun_block(one, sources, Ok(binds)),
    ensures
        reads_stun_block(other, sources, Ok(binds)),
{
    broadcast use vstd::seq_lib::group_to_multiset_ensures;

    lemma_option_names();
    assert(one.take(one.len() as int) =~= one);
    lemma_single_fallback(one, "outer_addr"@, one.len() as int);
    lemma_single_fallback(one, "change_addr"@, one.len() as int);
    lemma_single_fallback(one, "change_port"@, one.len() as int);
    lemma_same_fallback(one, other, "outer_addr"@);
    lemma_same_fallback(one, other, "change_addr"@);
    lemma_same_fallback(one, other, "change_port"@);
    assert forall|at: int| 0 <= at < other.len() implies #[trigger] stun_child_ok(other, at) by {
        let child = other[at];
        assert(other.contains(child));
        assert(one.to_multiset().count(child) > 0);
        assert(one.contains(child));
        let i = choose|i: int| 0 <= i < one.len() && one[i] == child;
        assert(stun_child_ok(one, i));
        lemma_named_before(other, at, child.name_text());
    }
    assert(fallbacks_of(other) == fallbacks_of(one));
    assert(stun_binds(other) =~= stun_binds(one));
}

proof fn lemma_child_one_way(
    child: AstDirective,
    repeated: bool,
    sources: SourceMap,
    error: StunServerConfigValueError,
)
    ensures
        !(stun_child_fits(child, repeated) && stun_child_fault(child, repeated, sources, error)),
{
    lemma_option_names();
}

proof fn lemma_block_one_way(
    children: Seq<AstDirective>,
    sources: SourceMap,
    binds: Seq<StunBindConfigValue>,
    error: StunServerConfigValueError,
)
    ensures
        !(reads_stun_block(children, sources, Ok(binds)) && reads_stun_block(
            children,
            sources,
            Err(error),
        )),
{
    if reads_stun_block(children, sources, Ok(binds)) && reads_stun_block(
        children,
        sources,
        Err(error),
    ) {
        let at = choose|at: int|
            {
                &&& 0 <= at < children.len()
                &&& forall|i: int| 0 <= i < at ==> #[trigger] stun_child_ok(children, i)
                &&& #[trigger] stun_child_error(children, at, sources, error)
            };
        assert(stun_child_ok(children, at));
        lemma_child_one_way(children[at], came_before(children, at), sources, error);
    }
}

/// Whether a directive came before matters for fallbacks alone.
proof fn lemma_repeated(child: AstDirective, one: bool, other: bool, sources: SourceMap)
    requires
        is_fallback(child.name_text()) ==> one == other,
    ensures
        stun_child_fits(child, one) == stun_child_fits(child, other),
        forall|error: StunServerConfigValueError|
            stun_child_fault(child, one, sources, error) == #[trigger] stun_child_fault(
                child,
                other,
                sources,
                error,
            ),
{
    lemma_option_names();
}

/// The values of the first directives of a block.
spec fn block_state(
    children: Seq<AstDirective>,
    count: int,
    binds: Seq<StunBindConfigValue>,
    fallbacks: StunFallbacks,
) -> bool {
    let done = children.take(count);
    &&& binds == binds_of(done)
    &&& fallbacks == fallbacks_of(done)
    &&& fallbacks.outer_addr is Some == (named(done, "outer_addr"@).len() > 0)
    &&& fallbacks.change_addr is Some == (named(done, "change_addr"@).len() > 0)
    &&& fallbacks.change_port is Some == (named(done, "change_port"@).len() > 0)
}

/// The values of a block once one more directive is read.
spec fn after_child(
    binds: Seq<StunBindConfigValue>,
    fallbacks: StunFallbacks,
    value: StunChild,
) -> (Seq<StunBindConfigValue>, StunFallbacks) {
    match value {
        StunChild::Bind(bind) => (binds.push(bind), fallbacks),
        StunChild::OuterAddr(addr) => (
            binds,
            StunFallbacks { outer_addr: Some(addr), ..fallbacks },
        ),
        StunChild::ChangeAddr(addr) => (
            binds,
            StunFallbacks { change_addr: Some(addr), ..fallbacks },
        ),
        StunChild::ChangePort(port) => (
            binds,
            StunFallbacks { change_port: Some(port), ..fallbacks },
        ),
    }
}

proof fn lemma_block_step(
    children: Seq<AstDirective>,
    at: int,
    binds: Seq<StunBindConfigValue>,
    fallbacks: StunFallbacks,
    value: StunChild,
)
    requires
        0 <= at < children.len(),
        block_state(children, at, binds, fallbacks),
        stun_child_ok(children, at),
        gives(children[at], value),
    ensures
        block_state(
            children,
            at + 1,
            after_child(binds, fallbacks, value).0,
            after_child(binds, fallbacks, value).1,
        ),
{
    lemma_option_names();
    lemma_named_step(children, at, "bind"@);
    lemma_named_step(children, at, "outer_addr"@);
    lemma_named_step(children, at, "change_addr"@);
    lemma_named_step(children, at, "change_port"@);
    assert(after_child(binds, fallbacks, value).0 =~= binds_of(children.take(at + 1)));
}

fn read_stun_block(children: &Vec<AstDirective>, source_map: &SourceMap) -> (result: Result<
    Vec<StunBindConfigValue>,
    StunServerConfigValueError,
>)
    ensures
        match result {
            Ok(binds) => reads_stun_block(children@, *source_map, Ok(binds@)),
            Err(error) => reads_stun_block(children@, *source_map, Err(error)),
        },
{
    let ghost all = children@;
    let mut binds: Vec<StunBindConfigValue> = Vec::new();
    let mut outer_addr: Option<SocketAddr> = None;
    let mut change_addr: Option<SocketAddr> = None;
    let mut change_port: Option<u16> = None;
    let mut i: usize = 0;
    proof {
        assert(all.take(0) =~= seq![]);
        assert(binds@ =~= binds_of(all.take(0)));
    }
    while i < children.len()
        invariant
            i <= children@.len(),
            all == children@,
            forall|k: int| 0 <= k < i ==> #[trigger] stun_child_ok(all, k),
            block_state(
                all,
                i as int,
                binds@,
                StunFallbacks { outer_addr, change_addr, change_port },
            ),
        decreases children@.len() - i,
    {
        let child = &children[i];
        let ghost before = (binds@, StunFallbacks { outer_addr, change_addr, change_port });
        let ghost repeated = if child.name_text() == "outer_addr"@ {
            outer_addr is Some
        } else if child.name_text() == "change_addr"@ {
            change_addr is Some
        } else {
            change_port is Some
        };
        proof {
            lemma_repeated(*child, repeated, came_before(all, i as int), *source_map);
        }
        match read_child(
            child,
            outer_addr.is_some(),
            change_addr.is_some(),
            change_port.is_some(),
            source_map,
        ) {
            Ok(value) => {
                assert(stun_child_ok(all, i as int));
                proof {
                    lemma_block_step(all, i as int, before.0, before.1, value);
                }
                match value {
                    StunChild::Bind(bind) => {
                        binds.push(bind);
                    },
                    StunChild::OuterAddr(addr) => {
                        outer_addr = Some(addr);
                    },
                    StunChild::ChangeAddr(addr) => {
                        change_addr = Some(addr);
                    },
                    StunChild::ChangePort(port) => {
                        change_port = Some(port);
                    },
                }
            },
            Err(error) => {
                assert(stun_child_error(all, i as int, *source_map, error));
                return Err(error);
            },
        }
        i += 1;
    }
    assert(all.take(i as int) =~= all);
    Ok(fill_in(&binds, outer_addr, change_addr, change_port))
}

impl DirectiveValue for StunServerConfigValue {
    type Error = StunServerConfigValueError;

    open spec fn reads(
        directive: AstDirective,
        sources: SourceMap,
        result: Result<Self, StunServerConfigValueError>,
    ) -> bool {
        match directive.block() {
            None => result matches Err(StunServerConfigValueError::ExpectedBlock { span }) && span
                == directive.span,
            Some(children) => match result {
                Ok(value) => reads_stun_block(children, sources, Ok(value.binds@)),
                Err(error) => reads_stun_block(children, sources, Err(error)),
            },
        }
    }

    open spec fn place(directive: AstDirective) -> SourceSpan {
        directive.span
    }

    open spec fn wrapped(error: StunServerConfigValueError) -> DirectiveError {
        DirectiveError::StunServerConfigValue(error)
    }

    proof fn reads_one_way(
        directive: AstDirective,
        sources: SourceMap,
        value: Self,
        error: StunServerConfigValueError,
    ) {
        match directive.block() {
            Some(children) => lemma_block_one_way(children, sources, value.binds@, error),
            None => {},
        }
    }

    fn read(directive: &AstDirective, source_map: &SourceMap) -> (result: Result<Self, StunServerConfigValueError>) {
        match directive.children() {
            Some(children) => match read_stun_block(children, source_map) {
                Ok(binds) => Ok(StunServerConfigValue { binds }),
                Err(error) => Err(error),
            },
            None => Err(StunServerConfigValueError::ExpectedBlock { span: directive.span }),
        }
    }

    fn place_of(directive: &AstDirective) -> (span: SourceSpan) {
        directive.span
    }

    fn wrap(error: StunServerConfigValueError) -> (wrapped: DirectiveError) {
        DirectiveError::StunServerConfigValue(error)
    }
}

/// What a registry knows of `stun_server`.
pub open spec fn stun_server_directive() -> DirectiveView {
    directive_in(
        SERVER@,
        "stun_server"@,
        ValueKind::StunServerConfigValue,
        DirectiveShape::RawBlock,
        DuplicatePolicy::Append,
        CascadePolicy::Nothing,
        TransportPolicy::WorkerLocalOnly,
        ReloadImpact::ListenerSet,
    )
}

/// The directive `stun_server`.
pub fn stun_server_definition() -> (definition: TypedDirectiveDefinition<StunServerConfigValue>)
    ensures
        definition.wf(),
        definition.registered_in() == SERVER@,
        definition.directive() == stun_server_directive(),
{
    TypedDirectiveDefinition::repeated(
        ContextKey(SERVER),
        "stun_server",
        DirectiveShape::RawBlock,
        CascadePolicy::Nothing,
        TransportPolicy::WorkerLocalOnly,
        ReloadImpact::ListenerSet,
    )
}

/// A registry once the directives of this module are entered.
pub open spec fn registered(registry: RegistryView) -> RegistryView {
    registry.with_directive(SERVER@, stun_server_directive())
}

/// Enters the directives of this module.
pub fn register(registry: &mut ConfigRegistry)
    ensures
        final(registry)@ == registered(old(registry)@),
{
    stun_server_definition().register(registry);
}

} // verus!
