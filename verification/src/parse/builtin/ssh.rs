//! Directives about SSH logins.
use vstd::prelude::*;

use crate::parse::ast::{AstDirective, Spanned};
use crate::parse::builtin::DirectiveError;
use crate::parse::decode::{is_count_error, DirectiveValue};
use crate::parse::source::{SourceMap, SourceSpan};
use crate::parse::types::{SshLoginMethods, SshSslUser, SshSslUsers};
use crate::text::{push_str, str_eq, texts};

verus! {

/// Why a directive gives no login methods.
#[derive(Debug)]
pub enum SshLoginMethodsError {
    MissingMethod { span: SourceSpan },
    InvalidMethod { span: SourceSpan, method: String },
}

impl SshLoginMethodsError {
    /// The message of this error.
    pub open spec fn text(self) -> Seq<char> {
        match self {
            SshLoginMethodsError::MissingMethod { .. } => "missing ssh login method"@,
            SshLoginMethodsError::InvalidMethod { method, .. } => "invalid ssh login method `"@ + method@ + "`"@,
        }
    }

    /// The message of this error.
    pub fn message(&self) -> (text: String)
        ensures
            text@ == self.text(),
    {
        match self {
            SshLoginMethodsError::MissingMethod { .. } => "missing ssh login method".to_owned(),
            SshLoginMethodsError::InvalidMethod { method, .. } => {
                let mut text = "invalid ssh login method `".to_owned();
                push_str(&mut text, method.as_str());
                push_str(&mut text, "`");
                text
            },
        }
    }

    /// The messages of this error and of what caused it, outermost first.
    pub open spec fn chain(self) -> Seq<Seq<char>> {
        seq![self.text()]
    }

    /// The messages of this error and of what caused it, outermost first.
    pub fn messages(&self) -> (list: Vec<String>)
        ensures
            texts(list@) == self.chain(),
    {
        let mut list: Vec<String> = Vec::new();
        list.push(self.message());
        assert(texts(list@) =~= self.chain());
        list
    }
}

/// Whether the first `count` arguments are all the one login method there is.
pub open spec fn all_ssl(args: Seq<Spanned<String>>, count: int) -> bool {
    forall|i: int| 0 <= i < count ==> (#[trigger] args[i]).value@ == "ssl"@
}

impl DirectiveValue for SshLoginMethods {
    type Error = SshLoginMethodsError;

    open spec fn reads(
        directive: AstDirective,
        sources: SourceMap,
        result: Result<Self, SshLoginMethodsError>,
    ) -> bool {
        match result {
            Ok(methods) => directive.args@.len() > 0 && all_ssl(
                directive.args@,
                directive.args@.len() as int,
            ) && methods.0@ == directive.arg_values(),
            Err(SshLoginMethodsError::MissingMethod { span }) => directive.args@.len() == 0 && span
                == directive.span,
            Err(SshLoginMethodsError::InvalidMethod { span, method }) => exists|at: int|
                {
                    &&& 0 <= at < directive.args@.len()
                    &&& all_ssl(directive.args@, at)
                    &&& (#[trigger] directive.args@[at]).value@ != "ssl"@
                    &&& span == directive.args@[at].span
                    &&& method@ == directive.arg(at)
                },
        }
    }

    open spec fn place(directive: AstDirective) -> SourceSpan {
        directive.span
    }

    open spec fn wrapped(error: SshLoginMethodsError) -> DirectiveError {
        DirectiveError::SshLoginMethods(error)
    }

    proof fn reads_one_way(
        directive: AstDirective,
        sources: SourceMap,
        value: Self,
        error: SshLoginMethodsError,
    ) {
    }

    fn read(directive: &AstDirective, source_map: &SourceMap) -> (result: Result<Self, SshLoginMethodsError>) {
        if directive.args.len() == 0 {
            return Err(SshLoginMethodsError::MissingMethod { span: directive.span });
        }
        let mut methods: Vec<String> = Vec::new();
        let mut i: usize = 0;
        while i < directive.args.len()
            invariant
                i <= directive.args@.len(),
                all_ssl(directive.args@, i as int),
                methods@ == directive.arg_values().take(i as int),
            decreases directive.args@.len() - i,
        {
            let arg = &directive.args[i];
            if !str_eq(arg.value.as_str(), "ssl") {
                assert(directive.args@[i as int] == *arg);
                return Err(
                    SshLoginMethodsError::InvalidMethod { span: arg.span, method: arg.value.clone() },
                );
            }
            methods.push(arg.value.clone());
            assert(directive.arg_values().take(i + 1) =~= directive.arg_values().take(i as int).push(
                directive.arg_values()[i as int],
            ));
            i += 1;
        }
        assert(directive.arg_values().take(i as int) =~= directive.arg_values());
        Ok(SshLoginMethods(methods))
    }

    fn place_of(directive: &AstDirective) -> (span: SourceSpan) {
        directive.span
    }

    fn wrap(error: SshLoginMethodsError) -> (wrapped: DirectiveError) {
        DirectiveError::SshLoginMethods(error)
    }
}

/// Why a directive gives no login user.
#[derive(Debug)]
pub enum SshSslUsersError {
    InvalidArgumentCount { span: SourceSpan, expected: &'static str, actual: usize },
}

impl SshSslUsersError {
    /// The message of this error.
    pub open spec fn text(self) -> Seq<char> {
        match self {
            SshSslUsersError::InvalidArgumentCount { .. } => "invalid ssh_ssl_user directive argument count"@,
        }
    }

    /// The message of this error.
    pub fn message(&self) -> (text: String)
        ensures
            text@ == self.text(),
    {
        match self {
            SshSslUsersError::InvalidArgumentCount { .. } => "invalid ssh_ssl_user directive argument count".to_owned(),
        }
    }

    /// The messages of this error and of what caused it, outermost first.
    pub open spec fn chain(self) -> Seq<Seq<char>> {
        seq![self.text()]
    }

    /// The messages of this error and of what caused it, outermost first.
    pub fn messages(&self) -> (list: Vec<String>)
        ensures
            texts(list@) == self.chain(),
    {
        let mut list: Vec<String> = Vec::new();
        list.push(self.message());
        assert(texts(list@) =~= self.chain());
        list
    }
}

impl DirectiveValue for SshSslUsers {
    type Error = SshSslUsersError;

    open spec fn reads(
        directive: AstDirective,
        sources: SourceMap,
        result: Result<Self, SshSslUsersError>,
    ) -> bool {
        if directive.args@.len() == 2 {
            result matches Ok(users) && users.0@.len() == 1 && users.0@[0].name@ == directive.arg(0)
                && users.0@[0].user@ == directive.arg(1)
        } else {
            result matches Err(SshSslUsersError::InvalidArgumentCount { span, expected, actual })
                && is_count_error(directive, span, expected@, actual, "2"@)
        }
    }

    open spec fn place(directive: AstDirective) -> SourceSpan {
        directive.span
    }

    open spec fn wrapped(error: SshSslUsersError) -> DirectiveError {
        DirectiveError::SshSslUsers(error)
    }

    proof fn reads_one_way(
        directive: AstDirective,
        sources: SourceMap,
        value: Self,
        error: SshSslUsersError,
    ) {
    }

    fn read(directive: &AstDirective, source_map: &SourceMap) -> (result: Result<Self, SshSslUsersError>) {
        if directive.args.len() != 2 {
            return Err(
                SshSslUsersError::InvalidArgumentCount {
                    span: directive.span,
                    expected: "2",
                    actual: directive.args.len(),
                },
            );
        }
        let mut users: Vec<SshSslUser> = Vec::new();
        users.push(
            SshSslUser {
                name: directive.args[0].value.clone(),
                user: directive.args[1].value.clone(),
            },
        );
        Ok(SshSslUsers(users))
    }

    fn place_of(directive: &AstDirective) -> (span: SourceSpan) {
        directive.span
    }

    fn wrap(error: SshSslUsersError) -> (wrapped: DirectiveError) {
        DirectiveError::SshSslUsers(error)
    }
}

} // verus!
