//! Readers of plain directives.
use vstd::prelude::*;
use vstd::utf8::encode_utf8;

use crate::address::{socket_addr, SocketAddr};
use crate::number::{parse_u16, parse_u8, unsigned_value};
use crate::outside::{http_uri, is_header_name, is_header_value, lower_byte, parse_uri, UriView};
use crate::parse::builtin::basic::switch_of;
use crate::parse::builtin::net::{
    addr_listens, address_list, first_bad_address, parse_address_list, parse_address_parts,
    range_listens,
};
use crate::parse::node::{
    header_views, listen_views, user_views, Directive, HeaderView, Value, ValueMap, ValueView,
};
use crate::parse::types::{
    families_of, mime_table, range_of, HeaderName, HeaderRule, HeaderValue, IfaceRange,
    IpFamilies, Listens, ListensView, MimeTypes,
};
use crate::path::UnixPath;
use crate::text::{
    chars_of, clone_strings, contains_char, join2, join3, push_str, split_on, str_eq, texts,
};

verus! {

/// What is wrong with a configuration, in words.
#[derive(Debug)]
pub struct Whatever {
    pub message: String,
}

impl View for Whatever {
    type V = Seq<char>;

    open spec fn view(&self) -> Seq<char> {
        self.message@
    }
}

/// What reading a directive gave, as plain contents.
pub open spec fn shown(result: Result<Value, Whatever>) -> Result<ValueView, Seq<char>> {
    match result {
        Ok(value) => Ok(value.view()),
        Err(error) => Err(error@),
    }
}

/// The paths that lead to something.
#[derive(Debug)]
pub struct ExistingPaths {
    pub paths: Vec<UnixPath>,
}

impl ExistingPaths {
    /// Whether a path leads to something.
    pub open spec fn exists_at(self, path: Seq<u8>) -> bool {
        exists|i: int| 0 <= i < self.paths@.len() && (#[trigger] self.paths@[i])@ == path
    }

    /// Whether a path leads to something.
    pub fn contains(&self, path: &UnixPath) -> (found: bool)
        ensures
            found == self.exists_at(path@),
    {
        let mut i: usize = 0;
        while i < self.paths.len()
            invariant
                i <= self.paths@.len(),
                forall|k: int| 0 <= k < i ==> (#[trigger] self.paths@[k])@ != path@,
            decreases self.paths@.len() - i,
        {
            if self.paths[i].same(path) {
                return true;
            }
            i += 1;
        }
        false
    }
}

/// The message on a wrong number of arguments.
pub open spec fn count_message(directive: Directive) -> Seq<char> {
    "invalid number of arguments for directive: "@ + directive.name@
}

fn count_fault(directive: &Directive) -> (result: Result<Value, Whatever>)
    ensures
        shown(result) == Err::<ValueView, Seq<char>>(count_message(*directive)),
{
    Err(
        Whatever {
            message: join2(
                "invalid number of arguments for directive: ",
                directive.name.as_str(),
            ),
        },
    )
}

/// A message about a word of a directive.
pub open spec fn word_message(what: Seq<char>, word: Seq<char>, directive: Directive) -> Seq<char> {
    what + word + "` while parsing directive "@ + directive.name@
}

fn word_fault(what: &str, word: &str, directive: &Directive) -> (result: Result<Value, Whatever>)
    ensures
        shown(result) == Err::<ValueView, Seq<char>>(word_message(what@, word@, *directive)),
{
    let mut message = join3(what, word, "` while parsing directive ");
    push_str(&mut message, directive.name.as_str());
    Err(Whatever { message })
}

/// Each argument of each directive of a block, with the name of that directive.
pub open spec fn reversed_entries(lines: Seq<Directive>) -> Seq<(Seq<char>, Seq<char>)>
    decreases lines.len(),
{
    if lines.len() == 0 {
        seq![]
    } else {
        let last = lines.last();
        reversed_entries(lines.drop_last()) + texts(last.args@).map_values(
            |arg: Seq<char>| (arg, last.name@),
        )
    }
}

/// The texts of a table, as values.
pub open spec fn text_values(entries: Seq<(Seq<char>, Seq<char>)>) -> Map<Seq<char>, ValueView>
    decreases entries.len(),
{
    if entries.len() == 0 {
        Map::empty()
    } else {
        text_values(entries.drop_last()).insert(
            entries.last().0,
            ValueView::String(entries.last().1),
        )
    }
}

/// What a block of texts gives: for each argument the name that it stands behind.
pub open spec fn string_map_value(directive: Directive) -> Result<ValueView, Seq<char>> {
    match directive.children {
        Some(lines) => Ok(ValueView::StringMap(text_values(reversed_entries(lines@)))),
        None => Ok(ValueView::ValueMap(Map::empty())),
    }
}

/// A block of texts.
pub fn parse_string_map(directive: &Directive) -> (result: Result<Value, Whatever>)
    ensures
        shown(result) == string_map_value(*directive),
{
    let lines = match &directive.children {
        Some(lines) => lines,
        None => {
            return Ok(Value::ValueMap(ValueMap::new()));
        },
    };
    let mut map = ValueMap::new();
    let mut i: usize = 0;
    assert(lines@.take(0) =~= seq![]);
    while i < lines.len()
        invariant
            i <= lines@.len(),
            map.view() == text_values(reversed_entries(lines@.take(i as int))),
        decreases lines@.len() - i,
    {
        let line = &lines[i];
        let ghost before = reversed_entries(lines@.take(i as int));
        let ghost more = texts(line.args@).map_values(|arg: Seq<char>| (arg, line.name@));
        let mut k: usize = 0;
        assert(before + more.take(0) =~= before);
        while k < line.args.len()
            invariant
                k <= line.args@.len(),
                more == texts(line.args@).map_values(|arg: Seq<char>| (arg, line.name@)),
                map.view() == text_values(before + more.take(k as int)),
            decreases line.args@.len() - k,
        {
            map.insert(line.args[k].clone(), Value::String(line.name.clone()));
            proof {
                let next = before + more.take(k + 1);
                assert(next.drop_last() =~= before + more.take(k as int));
                assert(next.last() == more[k as int]);
            }
            k += 1;
        }
        proof {
            assert(more.take(k as int) =~= more);
            assert(lines@.take(i + 1).drop_last() =~= lines@.take(i as int));
        }
        i += 1;
    }
    assert(lines@.take(i as int) =~= lines@);
    Ok(Value::StringMap(map))
}

/// What `on` or `off` gives.
pub open spec fn boolean_value(directive: Directive) -> Result<ValueView, Seq<char>> {
    if directive.args@.len() != 1 {
        Err(count_message(directive))
    } else {
        match switch_of(directive.arg(0)) {
            Some(on) => Ok(ValueView::Boolean(on)),
            None => Err(
                "invalid boolean value `"@ + directive.arg(0) + "`, expected `on` or `off`"@,
            ),
        }
    }
}

/// `on` or `off`.
pub fn parse_boolean(directive: &Directive) -> (result: Result<Value, Whatever>)
    ensures
        shown(result) == boolean_value(*directive),
{
    if directive.args.len() != 1 {
        return count_fault(directive);
    }
    let flag = directive.args[0].as_str();
    if str_eq(flag, "on") {
        Ok(Value::Boolean(true))
    } else if str_eq(flag, "off") {
        Ok(Value::Boolean(false))
    } else {
        Err(
            Whatever {
                message: join3("invalid boolean value `", flag, "`, expected `on` or `off`"),
            },
        )
    }
}

/// The message on a text that is no header value.
pub open spec fn header_value_message(text: Seq<char>) -> Seq<char> {
    "failed to parse `"@ + text + "` to header value"@
}

/// What a header value gives.
pub open spec fn header_value_value(directive: Directive) -> Result<ValueView, Seq<char>> {
    if directive.args@.len() != 1 {
        Err(count_message(directive))
    } else if is_header_value(encode_utf8(directive.arg(0))) {
        Ok(ValueView::HeaderValue(encode_utf8(directive.arg(0))))
    } else {
        Err(header_value_message(directive.arg(0)))
    }
}

/// A header value.
pub fn parse_header_value(directive: &Directive) -> (result: Result<Value, Whatever>)
    ensures
        shown(result) == header_value_value(*directive),
{
    if directive.args.len() != 1 {
        return count_fault(directive);
    }
    let text = directive.args[0].as_str();
    match HeaderValue::from_bytes(text.as_bytes()) {
        Ok(value) => Ok(Value::HeaderValue(value)),
        Err(_) => Err(
            Whatever { message: join3("failed to parse `", text, "` to header value") },
        ),
    }
}

/// The entries of a `types` block: each extension with the type that heads its line.
pub open spec fn type_entries(lines: Seq<Directive>) -> Seq<(Seq<char>, Seq<u8>)>
    decreases lines.len(),
{
    if lines.len() == 0 {
        seq![]
    } else {
        type_entries(lines.drop_last()) + line_types(lines.last())
    }
}

/// The entries of one line of a `types` block.
pub open spec fn line_types(line: Directive) -> Seq<(Seq<char>, Seq<u8>)> {
    texts(line.args@).map_values(|arg: Seq<char>| (arg, encode_utf8(line.name@)))
}

/// The first of some lines, from the one at `from` on, that is not headed by a type.
pub open spec fn first_bad_head(lines: Seq<Directive>, from: int) -> Option<Seq<char>>
    decreases lines.len() - from,
{
    if from < 0 || from >= lines.len() {
        None
    } else if !is_header_value(encode_utf8(lines[from].name@)) {
        Some(lines[from].name@)
    } else {
        first_bad_head(lines, from + 1)
    }
}

/// What a `types` block gives. Without a block there are no values.
pub open spec fn types_value(directive: Directive) -> Result<ValueView, Seq<char>> {
    match directive.children {
        None => Ok(ValueView::ValueMap(Map::empty())),
        Some(lines) => match first_bad_head(lines@, 0) {
            Some(name) => Err(header_value_message(name)),
            None => Ok(ValueView::Types(mime_table(type_entries(lines@)))),
        },
    }
}

fn with_types(
    types: MimeTypes,
    line: &Directive,
    value: &HeaderValue,
    Ghost(before): Ghost<Seq<(Seq<char>, Seq<u8>)>>,
) -> (after: MimeTypes)
    requires
        types@ == mime_table(before),
        value@ == encode_utf8(line.name@),
    ensures
        after@ == mime_table(before + line_types(*line)),
{
    let mut after = types;
    let mut i: usize = 0;
    assert(before + line_types(*line).take(0) =~= before);
    while i < line.args.len()
        invariant
            i <= line.args@.len(),
            value@ == encode_utf8(line.name@),
            after@ == mime_table(before + line_types(*line).take(i as int)),
        decreases line.args@.len() - i,
    {
        after = after.insert(line.args[i].clone(), value.clone());
        proof {
            let entries = line_types(*line);
            let next = before + entries.take(i + 1);
            assert(next.drop_last() =~= before + entries.take(i as int));
            assert(next.last() == entries[i as int]);
        }
        i += 1;
    }
    assert(line_types(*line).take(i as int) =~= line_types(*line));
    after
}

/// A `types` block.
pub fn parse_types(directive: &Directive) -> (result: Result<Value, Whatever>)
    ensures
        shown(result) == types_value(*directive),
{
    let lines = match &directive.children {
        Some(lines) => lines,
        None => {
            return Ok(Value::ValueMap(ValueMap::new()));
        },
    };
    let mut types = MimeTypes::new();
    let mut i: usize = 0;
    assert(lines@.take(0) =~= seq![]);
    assert(types@ =~= mime_table(type_entries(lines@.take(0))));
    while i < lines.len()
        invariant
            i <= lines@.len(),
            directive.children matches Some(list) && list@ == lines@,
            first_bad_head(lines@, 0) == first_bad_head(lines@, i as int),
            types@ == mime_table(type_entries(lines@.take(i as int))),
        decreases lines@.len() - i,
    {
        let line = &lines[i];
        let value = match HeaderValue::from_bytes(line.name.as_str().as_bytes()) {
            Ok(value) => value,
            Err(_) => {
                return Err(
                    Whatever {
                        message: join3(
                            "failed to parse `",
                            line.name.as_str(),
                            "` to header value",
                        ),
                    },
                );
            },
        };
        types = with_types(types, line, &value, Ghost(type_entries(lines@.take(i as int))));
        assert(lines@.take(i + 1).drop_last() =~= lines@.take(i as int));
        i += 1;
    }
    assert(lines@.take(i as int) =~= lines@);
    Ok(Value::Types(types))
}

/// What one text gives.
pub open spec fn string_value(directive: Directive) -> Result<ValueView, Seq<char>> {
    if directive.args@.len() == 1 {
        Ok(ValueView::String(directive.arg(0)))
    } else {
        Err(count_message(directive))
    }
}

/// One text.
pub fn parse_string(directive: &Directive) -> (result: Result<Value, Whatever>)
    ensures
        shown(result) == string_value(*directive),
{
    if directive.args.len() != 1 {
        return count_fault(directive);
    }
    Ok(Value::String(directive.args[0].clone()))
}

/// What the URI of a server that requests are passed on to gives.
pub open spec fn pass_value(uri: Option<UriView>, directive: Directive) -> Result<
    ValueView,
    Seq<char>,
> {
    let message = word_message("invalid uri `"@, directive.arg(0), directive);
    match uri {
        None => Err(message),
        Some(uri) => match uri.scheme {
            None => Err(message),
            Some(scheme) => if scheme != "http"@ && scheme != "https"@ {
                Err(
                    "invalid proxy_pass scheme `"@ + scheme + "`, expected `http` or `https`"@,
                )
            } else if uri.authority is None {
                Err(message)
            } else {
                Ok(ValueView::Uri(uri))
            },
        },
    }
}

/// What the server that requests are passed on to gives.
pub open spec fn proxy_pass_value(directive: Directive) -> Result<ValueView, Seq<char>> {
    if directive.args@.len() != 1 {
        Err(count_message(directive))
    } else {
        pass_value(http_uri(directive.arg(0)), directive)
    }
}

/// The server that requests are passed on to.
pub fn parse_proxy_pass(directive: &Directive) -> (result: Result<Value, Whatever>)
    ensures
        shown(result) == proxy_pass_value(*directive),
{
    if directive.args.len() != 1 {
        return count_fault(directive);
    }
    let text = directive.args[0].as_str();
    let uri = match parse_uri(text) {
        Ok(uri) => uri,
        Err(_) => {
            return word_fault("invalid uri `", text, directive);
        },
    };
    match &uri.scheme {
        None => {
            return word_fault("invalid uri `", text, directive);
        },
        Some(scheme) => {
            if !str_eq(scheme.as_str(), "http") && !str_eq(scheme.as_str(), "https") {
                return Err(
                    Whatever {
                        message: join3(
                            "invalid proxy_pass scheme `",
                            scheme.as_str(),
                            "`, expected `http` or `https`",
                        ),
                    },
                );
            }
        },
    }
    if uri.authority.is_none() {
        return word_fault("invalid uri `", text, directive);
    }
    Ok(Value::Uri(uri))
}

/// Listening on one thing.
pub open spec fn one_listen(listens: ListensView) -> Result<ValueView, Seq<char>> {
    Ok(ValueView::Listen(seq![listens]))
}

/// What `listen interface [v4only|v6only|dual] [port]` or a list of addresses gives. What looks
/// like a list of addresses and is none is the name of an interface.
pub open spec fn listen_value(directive: Directive) -> Result<ValueView, Seq<char>> {
    let range = range_of(directive.arg(0));
    if directive.args@.len() == 1 {
        let text = directive.arg(0);
        if (text.contains(',') || socket_addr(text) is Some) && address_list(text) is Some {
            one_listen(addr_listens(address_list(text)->0))
        } else {
            one_listen(range_listens(range, IpFamilies::Dual, 0))
        }
    } else if directive.args@.len() == 2 {
        let word = directive.arg(1);
        match families_of(word) {
            Some(families) => one_listen(range_listens(range, families, 0)),
            None => match unsigned_value(word, 0xffff) {
                Ok(port) => one_listen(range_listens(range, IpFamilies::Dual, port as u16)),
                Err(_) => Err(
                    "invalid argument for directive: "@ + directive.name@ + ":"@ + word,
                ),
            },
        }
    } else if directive.args@.len() == 3 {
        match families_of(directive.arg(1)) {
            None => Err(
                "invalid ip families: "@ + directive.arg(1)
                    + ", expected `v4only`, `v6only` or `dual`"@,
            ),
            Some(families) => match unsigned_value(directive.arg(2), 0xffff) {
                Ok(port) => one_listen(range_listens(range, families, port as u16)),
                Err(_) => Err(
                    word_message("invalid port number `"@, directive.arg(2), directive),
                ),
            },
        }
    } else {
        Err(count_message(directive))
    }
}

fn listen_on(listens: Listens) -> (result: Result<Value, Whatever>)
    ensures
        shown(result) == one_listen(listens@),
{
    let mut list: Vec<Listens> = Vec::new();
    list.push(listens);
    assert(listen_views(list@) =~= seq![listens@]);
    Ok(Value::Listen(list))
}

/// What to listen on.
pub fn parse_listen(directive: &Directive) -> (result: Result<Value, Whatever>)
    ensures
        shown(result) == listen_value(*directive),
{
    let args = &directive.args;
    if args.len() == 1 {
        let text = args[0].as_str();
        if contains_char(&chars_of(text), ',') || SocketAddr::parse(text).is_ok() {
            match parse_address_list(text) {
                Some(addrs) => {
                    return listen_on(
                        Listens {
                            range: IfaceRange::All,
                            families: IpFamilies::Dual,
                            port: 0,
                            specific_addrs: Some(addrs),
                        },
                    );
                },
                None => {},
            }
        }
        listen_on(Listens::new(IfaceRange::from_text(text), IpFamilies::default(), 0))
    } else if args.len() == 2 {
        let range = IfaceRange::from_text(args[0].as_str());
        match IpFamilies::from_str(args[1].as_str()) {
            Ok(families) => listen_on(Listens::new(range, families, 0)),
            Err(_) => match parse_u16(args[1].as_str()) {
                Ok(port) => listen_on(Listens::new(range, IpFamilies::default(), port)),
                Err(_) => {
                    let mut message = join3(
                        "invalid argument for directive: ",
                        directive.name.as_str(),
                        ":",
                    );
                    push_str(&mut message, args[1].as_str());
                    Err(Whatever { message })
                },
            },
        }
    } else if args.len() == 3 {
        let range = IfaceRange::from_text(args[0].as_str());
        match IpFamilies::from_str(args[1].as_str()) {
            Err(error) => Err(Whatever { message: error.message() }),
            Ok(families) => match parse_u16(args[2].as_str()) {
                Ok(port) => listen_on(Listens::new(range, families, port)),
                Err(_) => word_fault("invalid port number `", args[2].as_str(), directive),
            },
        }
    } else {
        count_fault(directive)
    }
}

/// What one address, or several between commas, give.
pub open spec fn address_value(directive: Directive) -> Result<ValueView, Seq<char>> {
    if directive.args@.len() != 1 {
        Err(count_message(directive))
    } else {
        let text = directive.arg(0);
        if text.contains(',') {
            match address_list(text) {
                Some(addrs) => Ok(ValueView::AddrVec(addrs)),
                None => Err(
                    word_message(
                        "invalid socket address `"@,
                        first_bad_address(split_on(text, ','), 0)->0,
                        directive,
                    ),
                ),
            }
        } else {
            match socket_addr(text) {
                Some(addr) => Ok(ValueView::Addr(addr)),
                None => Err(word_message("invalid socket address `"@, text, directive)),
            }
        }
    }
}

/// One address, or several between commas.
pub fn parse_address(directive: &Directive) -> (result: Result<Value, Whatever>)
    ensures
        shown(result) == address_value(*directive),
{
    if directive.args.len() != 1 {
        return count_fault(directive);
    }
    let text = directive.args[0].as_str();
    if contains_char(&chars_of(text), ',') {
        match parse_address_parts(text) {
            Ok(addrs) => Ok(Value::AddrVec(addrs)),
            Err(part) => word_fault("invalid socket address `", part.as_str(), directive),
        }
    } else {
        match SocketAddr::parse(text) {
            Ok(addr) => Ok(Value::Addr(addr)),
            Err(_) => word_fault("invalid socket address `", text, directive),
        }
    }
}

/// What a resolver gives.
pub open spec fn resolver_value(directive: Directive) -> Result<ValueView, Seq<char>> {
    if directive.args@.len() != 2 {
        Err(count_message(directive))
    } else if directive.arg(0) == "udp"@ {
        Err("`udp` resolver is deprecated, please use `h3` instead"@)
    } else if directive.arg(0) == "http"@ {
        Err("`http` resolver is deprecated, please use `h3` instead"@)
    } else if directive.arg(0) == "h3"@ {
        match http_uri(directive.arg(1)) {
            Some(uri) => Ok(ValueView::Resolver(uri)),
            None => Err(
                "invalid base url `"@ + directive.arg(1) + "` whiling parsing h3 resolver"@,
            ),
        }
    } else {
        Err("unknown resolver kind: "@ + directive.arg(0) + ", expected `h3`"@)
    }
}

/// The resolver to ask for names.
pub fn parse_resolver(directive: &Directive) -> (result: Result<Value, Whatever>)
    ensures
        shown(result) == resolver_value(*directive),
{
    if directive.args.len() != 2 {
        return count_fault(directive);
    }
    let kind = directive.args[0].as_str();
    if str_eq(kind, "udp") {
        Err(
            Whatever {
                message: "`udp` resolver is deprecated, please use `h3` instead".to_owned(),
            },
        )
    } else if str_eq(kind, "http") {
        Err(
            Whatever {
                message: "`http` resolver is deprecated, please use `h3` instead".to_owned(),
            },
        )
    } else if str_eq(kind, "h3") {
        match parse_uri(directive.args[1].as_str()) {
            Ok(uri) => Ok(Value::Resolver(uri)),
            Err(_) => Err(
                Whatever {
                    message: join3(
                        "invalid base url `",
                        directive.args[1].as_str(),
                        "` whiling parsing h3 resolver",
                    ),
                },
            ),
        }
    } else {
        Err(Whatever { message: join3("unknown resolver kind: ", kind, ", expected `h3`") })
    }
}

/// What a path gives; it must lead to something.
pub open spec fn path_value(directive: Directive, existing: ExistingPaths) -> Result<
    ValueView,
    Seq<char>,
> {
    if directive.args@.len() != 1 {
        Err(count_message(directive))
    } else if existing.exists_at(encode_utf8(directive.arg(0))) {
        Ok(ValueView::Path(encode_utf8(directive.arg(0))))
    } else {
        Err("path `"@ + directive.arg(0) + "` does not exist"@)
    }
}

/// A path that must lead to something.
pub fn parse_path(directive: &Directive, existing: &ExistingPaths) -> (result: Result<
    Value,
    Whatever,
>)
    ensures
        shown(result) == path_value(*directive, *existing),
{
    if directive.args.len() != 1 {
        return count_fault(directive);
    }
    let path = UnixPath::new(directive.args[0].as_str());
    if existing.contains(&path) {
        Ok(Value::Path(path))
    } else {
        Err(
            Whatever { message: join3("path `", directive.args[0].as_str(), "` does not exist") },
        )
    }
}

/// What all arguments give.
pub open spec fn string_vec_value(directive: Directive) -> Result<ValueView, Seq<char>> {
    Ok(ValueView::StringVec(texts(directive.args@)))
}

/// All arguments.
pub fn parse_string_vec(directive: &Directive) -> (result: Result<Value, Whatever>)
    ensures
        shown(result) == string_vec_value(*directive),
{
    Ok(Value::StringVec(clone_strings(&directive.args)))
}

/// What the names of a server give.
pub open spec fn server_name_value(directive: Directive) -> Result<ValueView, Seq<char>> {
    Ok(ValueView::ServerName(texts(directive.args@)))
}

/// The names of a server.
pub fn parse_server_name(directive: &Directive) -> (result: Result<Value, Whatever>)
    ensures
        shown(result) == server_name_value(*directive),
{
    Ok(Value::ServerName(clone_strings(&directive.args)))
}

/// What the number of a server gives.
pub open spec fn server_id_value(directive: Directive) -> Result<ValueView, Seq<char>> {
    if directive.args@.len() != 1 {
        Err(count_message(directive))
    } else {
        match unsigned_value(directive.arg(0), 0xff) {
            Ok(number) => Ok(ValueView::ServerId(number as u8)),
            Err(_) => Err(word_message("invalid server id `"@, directive.arg(0), directive)),
        }
    }
}

/// The number of a server among those of one name.
pub fn parse_server_id(directive: &Directive) -> (result: Result<Value, Whatever>)
    ensures
        shown(result) == server_id_value(*directive),
{
    if directive.args.len() != 1 {
        return count_fault(directive);
    }
    match parse_u8(directive.args[0].as_str()) {
        Ok(number) => Ok(Value::ServerId(number)),
        Err(_) => word_fault("invalid server id `", directive.args[0].as_str(), directive),
    }
}

/// What the name and the value of a header give.
pub open spec fn one_header(directive: Directive, always: bool) -> Result<ValueView, Seq<char>> {
    let name = encode_utf8(directive.arg(0));
    let value = encode_utf8(directive.arg(1));
    if !is_header_name(name) {
        Err(word_message("invalid header name `"@, directive.arg(0), directive))
    } else if !is_header_value(value) {
        Err(word_message("invalid header value `"@, directive.arg(1), directive))
    } else {
        Ok(
            ValueView::Header(
                seq![
                    HeaderView { name: name.map_values(|b: u8| lower_byte(b)), value, always },
                ],
            ),
        )
    }
}

fn parse_one_header(directive: &Directive, always: bool) -> (result: Result<Value, Whatever>)
    requires
        directive.args@.len() >= 2,
    ensures
        shown(result) == one_header(*directive, always),
{
    let name = match HeaderName::from_bytes(directive.args[0].as_str().as_bytes()) {
        Ok(name) => name,
        Err(_) => {
            return word_fault("invalid header name `", directive.args[0].as_str(), directive);
        },
    };
    let value = match HeaderValue::from_bytes(directive.args[1].as_str().as_bytes()) {
        Ok(value) => value,
        Err(_) => {
            return word_fault("invalid header value `", directive.args[1].as_str(), directive);
        },
    };
    let ghost view = HeaderView { name: encode_utf8(name@), value: value@, always };
    let mut rules: Vec<HeaderRule> = Vec::new();
    rules.push(HeaderRule { name, value, always });
    assert(header_views(rules@) =~= seq![view]);
    Ok(Value::Header(rules))
}

/// What a header that is set on requests gives.
pub open spec fn header_value(directive: Directive) -> Result<ValueView, Seq<char>> {
    if directive.args@.len() == 2 {
        one_header(directive, true)
    } else {
        Err(count_message(directive))
    }
}

/// A header that is set on requests.
pub fn parse_header(directive: &Directive) -> (result: Result<Value, Whatever>)
    ensures
        shown(result) == header_value(*directive),
{
    if directive.args.len() == 2 {
        parse_one_header(directive, true)
    } else {
        count_fault(directive)
    }
}

/// What a header that is added to responses gives: to all of them where `always` stands behind it.
pub open spec fn header_always_value(directive: Directive) -> Result<ValueView, Seq<char>> {
    if directive.args@.len() == 2 {
        one_header(directive, false)
    } else if directive.args@.len() != 3 {
        Err(count_message(directive))
    } else if directive.arg(2) != "always"@ {
        Err("the third argument of directive "@ + directive.name@ + " must be `always`"@)
    } else {
        one_header(directive, true)
    }
}

/// A header that is added to responses.
pub fn parse_header_always(directive: &Directive) -> (result: Result<Value, Whatever>)
    ensures
        shown(result) == header_always_value(*directive),
{
    if directive.args.len() == 2 {
        parse_one_header(directive, false)
    } else if directive.args.len() == 3 {
        if !str_eq(directive.args[2].as_str(), "always") {
            return Err(
                Whatever {
                    message: join3(
                        "the third argument of directive ",
                        directive.name.as_str(),
                        " must be `always`",
                    ),
                },
            );
        }
        parse_one_header(directive, true)
    } else {
        count_fault(directive)
    }
}

/// Whether all arguments are the one login method there is.
pub open spec fn only_ssl(args: Seq<String>) -> bool {
    forall|i: int| 0 <= i < args.len() ==> (#[trigger] args[i])@ == "ssl"@
}

/// What login methods give.
pub open spec fn ssh_login_value(directive: Directive) -> Result<ValueView, Seq<char>> {
    if !only_ssl(directive.args@) {
        Err("invalid value for directive: "@ + directive.name@)
    } else if directive.args@.len() == 0 {
        Err(
            "at least one authentication method is required for directive: "@ + directive.name@,
        )
    } else {
        Ok(ValueView::StringVec(texts(directive.args@)))
    }
}

/// Login methods: there is only `ssl`.
pub fn parse_ssh_login(directive: &Directive) -> (result: Result<Value, Whatever>)
    ensures
        shown(result) == ssh_login_value(*directive),
{
    let mut i: usize = 0;
    while i < directive.args.len()
        invariant
            i <= directive.args@.len(),
            forall|k: int| 0 <= k < i ==> (#[trigger] directive.args@[k])@ == "ssl"@,
        decreases directive.args@.len() - i,
    {
        if !str_eq(directive.args[i].as_str(), "ssl") {
            assert(directive.args@[i as int]@ != "ssl"@);
            return Err(
                Whatever {
                    message: join2("invalid value for directive: ", directive.name.as_str()),
                },
            );
        }
        i += 1;
    }
    if directive.args.len() == 0 {
        return Err(
            Whatever {
                message: join2(
                    "at least one authentication method is required for directive: ",
                    directive.name.as_str(),
                ),
            },
        );
    }
    Ok(Value::StringVec(clone_strings(&directive.args)))
}

/// What the user that holders of a certificate log in as gives.
pub open spec fn ssh_ssl_user_value(directive: Directive) -> Result<ValueView, Seq<char>> {
    if directive.args@.len() == 2 {
        Ok(ValueView::SshSslUser(seq![(directive.arg(0), directive.arg(1))]))
    } else {
        Err(count_message(directive))
    }
}

/// The user that holders of a certificate log in as.
pub fn parse_ssh_ssl_user(directive: &Directive) -> (result: Result<Value, Whatever>)
    ensures
        shown(result) == ssh_ssl_user_value(*directive),
{
    if directive.args.len() != 2 {
        return count_fault(directive);
    }
    let mut users: Vec<(String, String)> = Vec::new();
    users.push((directive.args[0].clone(), directive.args[1].clone()));
    assert(user_views(users@) =~= seq![(directive.arg(0), directive.arg(1))]);
    Ok(Value::SshSslUser(users))
}

} // verus!
