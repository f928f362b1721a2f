//! Socket addresses: an IPv4 or IPv6 address with a port.
use vstd::prelude::*;

use crate::number::{decimal, digit_char, push_decimal};
use crate::text::{chars_of, push_char, push_str};

verus! {

/// An IPv4 or IPv6 address with a port. The address is the number that its bytes form, the first
/// byte being the most significant.
#[derive(Debug, Clone, Copy, PartialEq, Eq, Hash, Structural)]
#[allow(inconsistent_fields)]
pub enum SocketAddr {
    V4 { ip: u32, port: u16 },
    V6 { ip: u128, scope_id: u32, port: u16 },
}

/// The text is not a socket address.
#[derive(Debug, Clone, Copy, PartialEq, Eq, Structural)]
pub struct AddrParseError;

impl AddrParseError {
    pub open spec fn text(self) -> Seq<char> {
        "invalid socket address syntax"@
    }

    pub fn message(&self) -> (text: String)
        ensures
            text@ == self.text(),
    {
        "invalid socket address syntax".to_owned()
    }
}

/// The value of a digit in the given radix (ten or sixteen).
pub open spec fn digit_in(c: char, radix: nat) -> Option<nat> {
    if '0' <= c && c <= '9' {
        Some((c as u32 - '0' as u32) as nat)
    } else if radix == 16 && 'a' <= c && c <= 'f' {
        Some((c as u32 - 'a' as u32 + 10) as nat)
    } else if radix == 16 && 'A' <= c && c <= 'F' {
        Some((c as u32 - 'A' as u32 + 10) as nat)
    } else {
        None
    }
}

/// Where the run of digits that begins at `p` ends.
pub open spec fn digits_end(s: Seq<char>, p: int, radix: nat) -> int
    decreases s.len() - p,
{
    if 0 <= p < s.len() && digit_in(s[p], radix) is Some {
        digits_end(s, p + 1, radix)
    } else {
        p
    }
}

/// The value of the digits of `s` from `p` up to `e`.
pub open spec fn digits_value(s: Seq<char>, p: int, e: int, radix: nat) -> nat
    decreases e - p,
{
    if e <= p {
        0
    } else {
        digits_value(s, p, e - 1, radix) * radix + digit_in(s[e - 1], radix)->0
    }
}

/// How a number inside an address is written.
pub struct NumberForm {
    pub radix: nat,
    /// The most digits that it may have.
    pub max_digits: Option<nat>,
    /// Whether it may begin with a zero and have more digits.
    pub zero_prefix: bool,
    /// The largest value.
    pub max: nat,
}

/// The number at `p`, with the position after it.
pub open spec fn number_at(s: Seq<char>, p: int, form: NumberForm) -> Option<(nat, int)> {
    let e = digits_end(s, p, form.radix);
    let value = digits_value(s, p, e, form.radix);
    if e <= p || (form.max_digits matches Some(most) && e - p > most) || (!form.zero_prefix
        && s[p] == '0' && e - p > 1) || value > form.max {
        None
    } else {
        Some((value, e))
    }
}

/// A byte of a dotted address.
pub open spec fn octet_form() -> NumberForm {
    NumberForm { radix: 10, max_digits: Some(3), zero_prefix: false, max: 255 }
}

/// A group of a colon-separated address.
pub open spec fn group_form() -> NumberForm {
    NumberForm { radix: 16, max_digits: Some(4), zero_prefix: true, max: 0xffff }
}

/// A port.
pub open spec fn port_form() -> NumberForm {
    NumberForm { radix: 10, max_digits: None, zero_prefix: true, max: 0xffff }
}

/// A scope.
pub open spec fn scope_form() -> NumberForm {
    NumberForm { radix: 10, max_digits: None, zero_prefix: true, max: 0xffff_ffff }
}

/// Whether `c` stands at `p`.
pub open spec fn char_at(s: Seq<char>, p: int, c: char) -> bool {
    0 <= p < s.len() && s[p] == c
}

/// The rest of a dotted address, of which `count` bytes with the value `value` are read.
pub open spec fn ipv4_rest(s: Seq<char>, p: int, count: nat, value: nat) -> Option<(nat, int)>
    decreases 4 - count,
{
    if count >= 4 {
        Some((value, p))
    } else if count > 0 && !char_at(s, p, '.') {
        None
    } else {
        match number_at(s, if count > 0 { p + 1 } else { p }, octet_form()) {
            None => None,
            Some((octet, e)) => ipv4_rest(s, e, count + 1, value * 256 + octet),
        }
    }
}

/// The dotted address at `p`.
pub open spec fn ipv4_at(s: Seq<char>, p: int) -> Option<(nat, int)> {
    ipv4_rest(s, p, 0, 0)
}

/// A run of groups: their number, their value, where they end, and whether a dotted address
/// ended them.
pub struct Groups {
    pub count: nat,
    pub value: nat,
    pub end: int,
    pub dotted: bool,
}

/// Reads groups from `p` on, onto the groups in `got`, up to `limit` of them.
pub open spec fn groups_from(s: Seq<char>, got: Groups, limit: nat) -> Groups
    decreases limit - got.count,
{
    let p = got.end;
    let q = if got.count == 0 {
        p
    } else {
        p + 1
    };
    if got.count >= limit || (got.count > 0 && !char_at(s, p, ':')) {
        got
    } else if got.count + 1 < limit && ipv4_at(s, q) is Some {
        let (value, e) = ipv4_at(s, q)->0;
        Groups { count: got.count + 2, value: got.value * 0x1_0000_0000 + value, end: e, dotted: true }
    } else {
        match number_at(s, q, group_form()) {
            None => got,
            Some((value, e)) => groups_from(
                s,
                Groups { count: got.count + 1, value: got.value * 0x1_0000 + value, end: e, dotted: false },
                limit,
            ),
        }
    }
}

/// No groups yet, at `p`.
pub open spec fn no_groups(p: int) -> Groups {
    Groups { count: 0, value: 0, end: p, dotted: false }
}

/// The number above every value of `count` groups.
pub open spec fn group_bound(count: nat) -> nat
    decreases count,
{
    if count == 0 {
        1
    } else {
        0x1_0000 * group_bound((count - 1) as nat)
    }
}

/// The colon-separated address at `p`.
pub open spec fn ipv6_at(s: Seq<char>, p: int) -> Option<(nat, int)> {
    let head = groups_from(s, no_groups(p), 8);
    if head.count == 8 {
        Some((head.value, head.end))
    } else if head.dotted || !char_at(s, head.end, ':') || !char_at(s, head.end + 1, ':') {
        None
    } else {
        let tail = groups_from(s, no_groups(head.end + 2), (7 - head.count) as nat);
        Some((head.value * group_bound((8 - head.count) as nat) + tail.value, tail.end))
    }
}

/// The port at `p`, behind its colon.
pub open spec fn port_at(s: Seq<char>, p: int) -> Option<(nat, int)> {
    if char_at(s, p, ':') {
        number_at(s, p + 1, port_form())
    } else {
        None
    }
}

/// The scope at `p`, behind its percent sign; zero where there is none.
pub open spec fn scope_at(s: Seq<char>, p: int) -> (nat, int) {
    if char_at(s, p, '%') && number_at(s, p + 1, scope_form()) is Some {
        number_at(s, p + 1, scope_form())->0
    } else {
        (0, p)
    }
}

/// The IPv4 socket address that the whole of `s` spells.
pub open spec fn socket_v4(s: Seq<char>) -> Option<SocketAddr> {
    match ipv4_at(s, 0) {
        None => None,
        Some((ip, p)) => match port_at(s, p) {
            Some((port, e)) if e == s.len() => Some(
                SocketAddr::V4 { ip: ip as u32, port: port as u16 },
            ),
            _ => None,
        },
    }
}

/// The IPv6 socket address that the whole of `s` spells.
pub open spec fn socket_v6(s: Seq<char>) -> Option<SocketAddr> {
    if !char_at(s, 0, '[') {
        None
    } else {
        match ipv6_at(s, 1) {
            None => None,
            Some((ip, p)) => {
                let (scope, q) = scope_at(s, p);
                if !char_at(s, q, ']') {
                    None
                } else {
                    match port_at(s, q + 1) {
                        Some((port, e)) if e == s.len() => Some(
                            SocketAddr::V6 {
                                ip: ip as u128,
                                scope_id: scope as u32,
                                port: port as u16,
                            },
                        ),
                        _ => None,
                    }
                }
            },
        }
    }
}

/// The socket address that the whole of `s` spells: `1.2.3.4:80` or `[::1]:80`.
pub open spec fn socket_addr(s: Seq<char>) -> Option<SocketAddr> {
    match socket_v4(s) {
        Some(addr) => Some(addr),
        None => socket_v6(s),
    }
}

/// The value of a digit in the given radix.
fn read_digit(c: char, radix: u32) -> (value: Option<u32>)
    requires
        radix == 10 || radix == 16,
    ensures
        match value {
            Some(v) => digit_in(c, radix as nat) == Some(v as nat) && v < radix,
            None => digit_in(c, radix as nat) is None,
        },
{
    if '0' <= c && c <= '9' {
        Some(c as u32 - '0' as u32)
    } else if radix == 16 && 'a' <= c && c <= 'f' {
        Some(c as u32 - 'a' as u32 + 10)
    } else if radix == 16 && 'A' <= c && c <= 'F' {
        Some(c as u32 - 'A' as u32 + 10)
    } else {
        None
    }
}

proof fn lemma_digits_end(s: Seq<char>, p: int, radix: nat)
    requires
        0 <= p <= s.len(),
    ensures
        p <= digits_end(s, p, radix) <= s.len(),
    decreases s.len() - p,
{
    if p < s.len() && digit_in(s[p], radix) is Some {
        lemma_digits_end(s, p + 1, radix);
    }
}

proof fn lemma_digits_value_monotone(s: Seq<char>, p: int, m: int, e: int, radix: nat)
    requires
        p <= m <= e,
        radix > 0,
    ensures
        digits_value(s, p, m, radix) <= digits_value(s, p, e, radix),
    decreases e - m,
{
    if m < e {
        lemma_digits_value_monotone(s, p, m, e - 1, radix);
        let v = digits_value(s, p, e - 1, radix);
        assert(v <= v * radix) by (nonlinear_arith)
            requires
                radix > 0,
        ;
    }
}

proof fn lemma_digits_end_step(s: Seq<char>, p: int, m: int, radix: nat)
    requires
        0 <= p <= m <= s.len(),
        forall|k: int| p <= k < m ==> digit_in(#[trigger] s[k], radix) is Some,
    ensures
        digits_end(s, p, radix) == digits_end(s, m, radix),
    decreases m - p,
{
    if p < m {
        assert(digit_in(s[p], radix) is Some);
        lemma_digits_end_step(s, p + 1, m, radix);
    }
}

/// Reads the number at `p`.
fn read_number(
    chars: &Vec<char>,
    p: usize,
    radix: u32,
    max_digits: usize,
    zero_prefix: bool,
    max: u32,
    form: Ghost<NumberForm>,
) -> (result: Option<(u32, usize)>)
    requires
        p <= chars@.len(),
        radix == 10 || radix == 16,
        form@.radix == radix,
        form@.zero_prefix == zero_prefix,
        form@.max == max,
        max_digits == 0 ==> form@.max_digits is None,
        max_digits > 0 ==> form@.max_digits == Some(max_digits as nat),
    ensures
        match result {
            Some((value, e)) => number_at(chars@, p as int, form@) == Some(
                (value as nat, e as int),
            ) && p < e <= chars@.len() && value <= max,
            None => number_at(chars@, p as int, form@) is None,
        },
{
    let ghost s = chars@;
    let mut e: usize = p;
    let mut value: u64 = 0;
    let mut over = false;
    proof {
        lemma_digits_end(s, p as int, radix as nat);
    }
    while e < chars.len()
        invariant
            s == chars@,
            p <= e <= s.len(),
            radix == 10 || radix == 16,
            forall|k: int| p <= k < e ==> digit_in(#[trigger] s[k], radix as nat) is Some,
            !over ==> value == digits_value(s, p as int, e as int, radix as nat) && value <= max,
            over ==> digits_value(s, p as int, e as int, radix as nat) > max,
        ensures
            p <= e <= s.len(),
            e == s.len() || digit_in(s[e as int], radix as nat) is None,
            forall|k: int| p <= k < e ==> digit_in(#[trigger] s[k], radix as nat) is Some,
            !over ==> value == digits_value(s, p as int, e as int, radix as nat) && value <= max,
            over ==> digits_value(s, p as int, e as int, radix as nat) > max,
        decreases s.len() - e,
    {
        match read_digit(chars[e], radix) {
            None => {
                break;
            },
            Some(digit) => {
                proof {
                    lemma_digits_value_monotone(s, p as int, e as int, e + 1, radix as nat);
                }
                if !over {
                    assert(value * radix <= 0xffff_ffff * 16) by (nonlinear_arith)
                        requires
                            value <= 0xffff_ffff,
                            radix <= 16,
                    ;
                    let next: u64 = value * radix as u64 + digit as u64;
                    if next > max as u64 {
                        over = true;
                    } else {
                        value = next;
                    }
                }
                e += 1;
            },
        }
    }
    proof {
        lemma_digits_end_step(s, p as int, e as int, radix as nat);
    }
    if e == p || (max_digits > 0 && e - p > max_digits) || over {
        return None;
    }
    if !zero_prefix && chars[p] == '0' && e - p > 1 {
        return None;
    }
    Some((value as u32, e))
}

/// Reads a byte of a dotted address.
fn read_octet(chars: &Vec<char>, p: usize) -> (result: Option<(u32, usize)>)
    requires
        p <= chars@.len(),
    ensures
        match result {
            Some((value, e)) => number_at(chars@, p as int, octet_form()) == Some(
                (value as nat, e as int),
            ) && p < e <= chars@.len() && value <= 255,
            None => number_at(chars@, p as int, octet_form()) is None,
        },
{
    read_number(chars, p, 10, 3, false, 255, Ghost(octet_form()))
}

/// Reads the dotted address at `p`.
fn read_ipv4(chars: &Vec<char>, p: usize) -> (result: Option<(u32, usize)>)
    requires
        p <= chars@.len(),
    ensures
        match result {
            Some((value, e)) => ipv4_at(chars@, p as int) == Some((value as nat, e as int)) && p < e
                <= chars@.len(),
            None => ipv4_at(chars@, p as int) is None,
        },
{
    let ghost s = chars@;
    let mut at: usize = p;
    let mut count: u32 = 0;
    let mut value: u64 = 0;
    while count < 4
        invariant
            s == chars@,
            p <= at <= s.len(),
            count > 0 ==> p < at,
            count <= 4,
            count == 0 ==> value == 0,
            count == 1 ==> value < 0x100,
            count == 2 ==> value < 0x1_0000,
            count == 3 ==> value < 0x100_0000,
            count == 4 ==> value < 0x1_0000_0000,
            ipv4_at(s, p as int) == ipv4_rest(s, at as int, count as nat, value as nat),
        decreases 4 - count,
    {
        let mut from: usize = at;
        if count > 0 {
            if !(at < chars.len() && chars[at] == '.') {
                return None;
            }
            from = at + 1;
        }
        match read_octet(chars, from) {
            None => {
                return None;
            },
            Some((octet, e)) => {
                value = value * 256 + octet as u64;
                at = e;
                count += 1;
            },
        }
    }
    Some((value as u32, at))
}

proof fn lemma_group_bound(count: nat)
    requires
        count <= 8,
    ensures
        group_bound(count) >= 1,
        count <= 7 ==> group_bound(count) * 0x1_0000 == group_bound((count + 1) as nat),
        count <= 6 ==> group_bound(count) * 0x1_0000_0000 == group_bound((count + 2) as nat),
        group_bound(count) <= 0x1_0000_0000_0000_0000_0000_0000_0000_0000,
{
    reveal_with_fuel(group_bound, 11);
}

/// Reads up to `limit` groups from `p` on.
fn read_groups(chars: &Vec<char>, p: usize, limit: u32) -> (result: (u32, u128, usize, bool))
    requires
        p <= chars@.len(),
        limit <= 8,
    ensures
        groups_from(chars@, no_groups(p as int), limit as nat) == (Groups {
            count: result.0 as nat,
            value: result.1 as nat,
            end: result.2 as int,
            dotted: result.3,
        }),
        result.0 <= limit,
        (result.1 as nat) < group_bound(result.0 as nat),
        p <= result.2 <= chars@.len(),
{
    let ghost s = chars@;
    let mut count: u32 = 0;
    let mut value: u128 = 0;
    let mut at: usize = p;
    proof {
        lemma_group_bound(0);
    }
    while count < limit
        invariant
            s == chars@,
            p <= at <= s.len(),
            count <= limit <= 8,
            (value as nat) < group_bound(count as nat),
            groups_from(s, no_groups(p as int), limit as nat) == groups_from(
                s,
                (Groups { count: count as nat, value: value as nat, end: at as int, dotted: false }),
                limit as nat,
            ),
        decreases limit - count,
    {
        let mut from: usize = at;
        if count > 0 {
            if !(at < chars.len() && chars[at] == ':') {
                return (count, value, at, false);
            }
            from = at + 1;
        }
        proof {
            lemma_group_bound(count as nat);
            lemma_group_bound((count + 1) as nat);
            if count + 2 <= 8 {
                lemma_group_bound((count + 2) as nat);
            }
        }
        if count + 1 < limit {
            match read_ipv4(chars, from) {
                Some((ip, e)) => {
                    let next: u128 = value * 0x1_0000_0000u128 + ip as u128;
                    return (count + 2, next, e, true);
                },
                None => {},
            }
        }
        match read_number(chars, from, 16, 4, true, 0xffff, Ghost(group_form())) {
            None => {
                return (count, value, at, false);
            },
            Some((group, e)) => {
                value = value * 0x1_0000u128 + group as u128;
                at = e;
                count += 1;
            },
        }
    }
    (count, value, at, false)
}

/// `value`, moved up by `count` groups.
fn shift_groups(value: u128, kept: u32, count: u32) -> (shifted: u128)
    requires
        kept + count <= 8,
        (value as nat) < group_bound(kept as nat),
    ensures
        shifted == value * group_bound(count as nat),
        (shifted as nat) < group_bound((kept + count) as nat),
        shifted + group_bound(count as nat) <= group_bound((kept + count) as nat),
{
    let mut shifted: u128 = value;
    let mut done: u32 = 0;
    assert(value * group_bound(0) == value) by {
        reveal_with_fuel(group_bound, 2);
        assert(value * 1 == value) by (nonlinear_arith);
    }
    assert(group_bound(0) == 1) by {
        reveal_with_fuel(group_bound, 2);
    }
    while done < count
        invariant
            done <= count,
            kept + count <= 8,
            shifted == value * group_bound(done as nat),
            shifted + group_bound(done as nat) <= group_bound((kept + done) as nat),
        decreases count - done,
    {
        proof {
            lemma_group_bound(done as nat);
            lemma_group_bound((kept + done) as nat);
            lemma_group_bound((kept + done + 1) as nat);
            let b = group_bound(done as nat);
            assert((value * b) * 0x1_0000 == value * (b * 0x1_0000)) by (nonlinear_arith);
        }
        shifted = shifted * 0x1_0000u128;
        done += 1;
    }
    proof {
        lemma_group_bound(count as nat);
    }
    shifted
}

/// Reads the colon-separated address at `p`.
fn read_ipv6(chars: &Vec<char>, p: usize) -> (result: Option<(u128, usize)>)
    requires
        p <= chars@.len(),
    ensures
        match result {
            Some((value, e)) => ipv6_at(chars@, p as int) == Some((value as nat, e as int)) && e
                <= chars@.len(),
            None => ipv6_at(chars@, p as int) is None,
        },
{
    let (count, value, end, dotted) = read_groups(chars, p, 8);
    if count == 8 {
        return Some((value, end));
    }
    if dotted {
        return None;
    }
    if !(end < chars.len() && chars[end] == ':') {
        return None;
    }
    if !(end + 1 < chars.len() && chars[end + 1] == ':') {
        return None;
    }
    let (tail_count, tail, e, _) = read_groups(chars, end + 2, 7 - count);
    let shifted = shift_groups(value, count, 8 - count);
    proof {
        lemma_bound_monotone(tail_count as nat, (8 - count) as nat);
        lemma_group_bound(8);
    }
    Some((shifted + tail, e))
}

proof fn lemma_bound_monotone(low: nat, high: nat)
    requires
        low <= high,
    ensures
        group_bound(low) <= group_bound(high),
    decreases high,
{
    if low < high {
        lemma_bound_monotone(low, (high - 1) as nat);
    }
}

/// Reads the port at `p`, which must end the text.
fn read_last_port(chars: &Vec<char>, p: usize) -> (result: Option<u16>)
    requires
        p <= chars@.len(),
    ensures
        match result {
            Some(port) => port_at(chars@, p as int) == Some((port as nat, chars@.len() as int)),
            None => match port_at(chars@, p as int) {
                Some((_, e)) => e != chars@.len(),
                None => true,
            },
        },
{
    if !(p < chars.len() && chars[p] == ':') {
        return None;
    }
    match read_number(chars, p + 1, 10, 0, true, 0xffff, Ghost(port_form())) {
        None => None,
        Some((port, e)) => if e == chars.len() {
            Some(port as u16)
        } else {
            None
        },
    }
}

fn parse_v4(chars: &Vec<char>) -> (result: Option<SocketAddr>)
    ensures
        result == socket_v4(chars@),
{
    match read_ipv4(chars, 0) {
        None => None,
        Some((ip, p)) => match read_last_port(chars, p) {
            None => None,
            Some(port) => Some(SocketAddr::V4 { ip, port }),
        },
    }
}

fn parse_v6(chars: &Vec<char>) -> (result: Option<SocketAddr>)
    ensures
        result == socket_v6(chars@),
{
    if !(0 < chars.len() && chars[0] == '[') {
        return None;
    }
    match read_ipv6(chars, 1) {
        None => None,
        Some((ip, p)) => {
            let mut scope: u32 = 0;
            let mut q: usize = p;
            if p < chars.len() && chars[p] == '%' {
                match read_number(chars, p + 1, 10, 0, true, 0xffff_ffff, Ghost(scope_form())) {
                    None => {},
                    Some((value, e)) => {
                        scope = value;
                        q = e;
                    },
                }
            }
            if !(q < chars.len() && chars[q] == ']') {
                return None;
            }
            match read_last_port(chars, q + 1) {
                None => None,
                Some(port) => Some(SocketAddr::V6 { ip, scope_id: scope, port }),
            }
        },
    }
}

/// The eight groups of an IPv6 address, or as many of its last ones as `count` says.
pub open spec fn segments(ip: nat, count: nat) -> Seq<nat>
    decreases count,
{
    if count == 0 {
        seq![]
    } else {
        segments(ip / 0x1_0000, (count - 1) as nat).push(ip % 0x1_0000)
    }
}

/// How many groups from `i` on are zero.
pub open spec fn zero_run(groups: Seq<nat>, i: int) -> nat
    decreases groups.len() - i,
{
    if 0 <= i < groups.len() && groups[i] == 0 {
        1 + zero_run(groups, i + 1)
    } else {
        0
    }
}

/// The first of the longest runs of zero groups among those that begin before `count`, as its
/// start and its length.
pub open spec fn longest_run(groups: Seq<nat>, count: nat) -> (int, nat)
    decreases count,
{
    if count == 0 {
        (0, 0)
    } else {
        let best = longest_run(groups, (count - 1) as nat);
        let run = zero_run(groups, count - 1);
        if run > best.1 {
            (count - 1, run)
        } else {
            best
        }
    }
}

/// The character of a hexadecimal digit.
pub open spec fn hex_char(value: nat) -> char {
    if value < 10 {
        ('0' as u32 + value) as char
    } else {
        ('a' as u32 + (value - 10)) as char
    }
}

/// A number in hexadecimal, without leading zeros.
pub open spec fn hexadecimal(n: nat) -> Seq<char>
    decreases n,
{
    if n < 16 {
        seq![hex_char(n)]
    } else {
        hexadecimal(n / 16).push(hex_char(n % 16))
    }
}

/// Groups in hexadecimal with colons between them.
pub open spec fn groups_text(groups: Seq<nat>) -> Seq<char>
    decreases groups.len(),
{
    if groups.len() == 0 {
        seq![]
    } else if groups.len() == 1 {
        hexadecimal(groups[0])
    } else {
        groups_text(groups.drop_last()).push(':') + hexadecimal(groups.last())
    }
}

/// The dotted form of an IPv4 address.
pub open spec fn ipv4_text(ip: nat) -> Seq<char> {
    decimal(ip / 0x100_0000).push('.') + decimal(ip / 0x1_0000 % 0x100).push('.') + decimal(
        ip / 0x100 % 0x100,
    ).push('.') + decimal(ip % 0x100)
}

/// The colon-separated form of an IPv6 address: the first of the longest runs of two or more zero
/// groups is written `::`, and an IPv4-mapped address ends in the dotted form.
pub open spec fn ipv6_text(ip: nat) -> Seq<char> {
    let groups = segments(ip, 8);
    let (start, len) = longest_run(groups, 8);
    if ip / 0x1_0000_0000 == 0xffff {
        "::ffff:"@ + ipv4_text(ip % 0x1_0000_0000)
    } else if len > 1 {
        groups_text(groups.take(start)) + "::"@ + groups_text(groups.skip(start + len))
    } else {
        groups_text(groups)
    }
}

/// How a socket address is written.
pub open spec fn addr_text(addr: SocketAddr) -> Seq<char> {
    match addr {
        SocketAddr::V4 { ip, port } => ipv4_text(ip as nat).push(':') + decimal(port as nat),
        SocketAddr::V6 { ip, scope_id, port } => "["@ + ipv6_text(ip as nat) + (if scope_id == 0 {
            seq![]
        } else {
            "%"@ + decimal(scope_id as nat)
        }) + "]:"@ + decimal(port as nat),
    }
}

fn push_hexadecimal(text: &mut String, n: u32)
    ensures
        final(text)@ == old(text)@ + hexadecimal(n as nat),
    decreases n,
{
    let ghost before = text@;
    if n >= 16 {
        push_hexadecimal(text, n / 16);
    }
    let digit: u8 = (n % 16) as u8;
    let c: char = if digit < 10 {
        (48u8 + digit) as char
    } else {
        (97u8 + (digit - 10)) as char
    };
    push_char(text, c);
    proof {
        assert(c == hex_char((n % 16) as nat));
        if n >= 16 {
            assert(text@ =~= before + hexadecimal((n / 16) as nat).push(c));
        } else {
            assert(text@ =~= before + seq![c]);
        }
    }
}

fn push_ipv4(text: &mut String, ip: u32)
    ensures
        final(text)@ == old(text)@ + ipv4_text(ip as nat),
{
    let ghost before = text@;
    push_decimal(text, (ip / 0x100_0000) as u64);
    push_char(text, '.');
    push_decimal(text, (ip / 0x1_0000 % 0x100) as u64);
    push_char(text, '.');
    push_decimal(text, (ip / 0x100 % 0x100) as u64);
    push_char(text, '.');
    push_decimal(text, (ip % 0x100) as u64);
    assert(text@ =~= before + ipv4_text(ip as nat));
}

/// The view of a list of groups.
spec fn group_values(groups: Seq<u32>) -> Seq<nat> {
    groups.map_values(|g: u32| g as nat)
}

proof fn lemma_segments_len(ip: nat, count: nat)
    ensures
        segments(ip, count).len() == count,
        forall|i: int| 0 <= i < count ==> #[trigger] segments(ip, count)[i] < 0x1_0000,
    decreases count,
{
    if count > 0 {
        lemma_segments_len(ip / 0x1_0000, (count - 1) as nat);
    }
}

fn split_segments(ip: u128, count: u32) -> (groups: Vec<u32>)
    ensures
        group_values(groups@) == segments(ip as nat, count as nat),
    decreases count,
{
    if count == 0 {
        let groups: Vec<u32> = Vec::new();
        assert(group_values(groups@) =~= seq![]);
        groups
    } else {
        let mut groups = split_segments(ip / 0x1_0000u128, count - 1);
        let ghost before = groups@;
        groups.push((ip % 0x1_0000u128) as u32);
        assert(group_values(groups@) =~= group_values(before).push((ip % 0x1_0000u128) as nat));
        groups
    }
}

proof fn lemma_zero_run_bound(groups: Seq<nat>, i: int)
    requires
        0 <= i <= groups.len(),
    ensures
        i + zero_run(groups, i) <= groups.len(),
    decreases groups.len() - i,
{
    if i < groups.len() && groups[i] == 0 {
        lemma_zero_run_bound(groups, i + 1);
    }
}

fn zero_run_at(groups: &Vec<u32>, i: usize) -> (len: usize)
    requires
        i <= groups@.len(),
    ensures
        len == zero_run(group_values(groups@), i as int),
        i + len <= groups@.len(),
    decreases groups@.len() - i,
{
    proof {
        lemma_zero_run_bound(group_values(groups@), i as int);
    }
    if i < groups.len() && groups[i] == 0 {
        1 + zero_run_at(groups, i + 1)
    } else {
        0
    }
}

fn find_longest_run(groups: &Vec<u32>) -> (run: (usize, usize))
    ensures
        (run.0 as int, run.1 as nat) == longest_run(group_values(groups@), groups@.len()),
        run.0 + run.1 <= groups@.len(),
{
    let mut best: (usize, usize) = (0, 0);
    let mut i: usize = 0;
    while i < groups.len()
        invariant
            i <= groups@.len(),
            (best.0 as int, best.1 as nat) == longest_run(group_values(groups@), i as nat),
            best.0 + best.1 <= groups@.len(),
        decreases groups@.len() - i,
    {
        let len = zero_run_at(groups, i);
        if len > best.1 {
            best = (i, len);
        }
        i += 1;
    }
    best
}

fn push_groups(text: &mut String, groups: &Vec<u32>, from: usize, to: usize)
    requires
        from <= to <= groups@.len(),
    ensures
        final(text)@ == old(text)@ + groups_text(
            group_values(groups@).subrange(from as int, to as int),
        ),
{
    let ghost before = text@;
    let ghost all = group_values(groups@);
    let mut i: usize = from;
    assert(all.subrange(from as int, from as int) =~= seq![]);
    assert(before + Seq::<char>::empty() =~= before);
    while i < to
        invariant
            from <= i <= to <= groups@.len(),
            all == group_values(groups@),
            text@ == before + groups_text(all.subrange(from as int, i as int)),
        decreases to - i,
    {
        let ghost here = text@;
        let ghost part = all.subrange(from as int, i + 1);
        assert(part.drop_last() =~= all.subrange(from as int, i as int));
        assert(part.last() == groups@[i as int] as nat);
        if i > from {
            push_char(text, ':');
        } else {
            assert(part.len() == 1);
        }
        push_hexadecimal(text, groups[i]);
        assert(text@ =~= before + groups_text(part));
        i += 1;
    }
}

fn push_ipv6(text: &mut String, ip: u128)
    ensures
        final(text)@ == old(text)@ + ipv6_text(ip as nat),
{
    let ghost before = text@;
    if ip / 0x1_0000_0000u128 == 0xffff {
        push_str(text, "::ffff:");
        push_ipv4(text, (ip % 0x1_0000_0000u128) as u32);
        assert(text@ =~= before + ipv6_text(ip as nat));
        return;
    }
    let groups = split_segments(ip, 8);
    let ghost all = group_values(groups@);
    proof {
        lemma_segments_len(ip as nat, 8);
        assert(all.len() == groups@.len());
    }
    let (start, len) = find_longest_run(&groups);
    if len > 1 {
        push_groups(text, &groups, 0, start);
        push_str(text, "::");
        push_groups(text, &groups, start + len, groups.len());
        assert(all.subrange(0, start as int) =~= all.take(start as int));
        assert(all.subrange(start + len, groups@.len() as int) =~= all.skip(start + len));
    } else {
        push_groups(text, &groups, 0, groups.len());
        assert(all.subrange(0, groups@.len() as int) =~= all);
    }
    assert(text@ =~= before + ipv6_text(ip as nat));
}

impl SocketAddr {
    /// Reads a socket address.
    pub fn parse(text: &str) -> (result: Result<SocketAddr, AddrParseError>)
        ensures
            match result {
                Ok(addr) => socket_addr(text@) == Some(addr),
                Err(_) => socket_addr(text@) is None,
            },
    {
        let chars = chars_of(text);
        match parse_v4(&chars) {
            Some(addr) => Ok(addr),
            None => match parse_v6(&chars) {
                Some(addr) => Ok(addr),
                None => Err(AddrParseError),
            },
        }
    }

    /// The port.
    pub fn port(&self) -> (port: u16)
        ensures
            port == (match *self {
                SocketAddr::V4 { port, .. } => port,
                SocketAddr::V6 { port, .. } => port,
            }),
    {
        match self {
            SocketAddr::V4 { port, .. } => *port,
            SocketAddr::V6 { port, .. } => *port,
        }
    }

    /// The address as text.
    pub fn to_text(&self) -> (text: String)
        ensures
            text@ == addr_text(*self),
    {
        let mut text = String::new();
        match self {
            SocketAddr::V4 { ip, port } => {
                push_ipv4(&mut text, *ip);
                push_char(&mut text, ':');
                push_decimal(&mut text, *port as u64);
            },
            SocketAddr::V6 { ip, scope_id, port } => {
                push_str(&mut text, "[");
                push_ipv6(&mut text, *ip);
                if *scope_id != 0 {
                    push_str(&mut text, "%");
                    push_decimal(&mut text, *scope_id as u64);
                }
                push_str(&mut text, "]:");
                push_decimal(&mut text, *port as u64);
            },
        }
        assert(text@ =~= addr_text(*self));
        text
    }
}

/// Whether a text stands in another at `p`.
pub open spec fn stands_at(s: Seq<char>, p: int, text: Seq<char>) -> bool {
    0 <= p && p + text.len() <= s.len() && s.subrange(p, p + text.len()) == text
}

proof fn lemma_decimal(n: nat)
    ensures
        decimal(n).len() > 0,
        forall|i: int| 0 <= i < decimal(n).len() ==> digit_in(#[trigger] decimal(n)[i], 10) is Some,
        digits_value(decimal(n), 0, decimal(n).len() as int, 10) == n,
        decimal(n)[0] == '0' ==> n == 0,
        n < 10 ==> decimal(n).len() == 1,
        n < 1000 ==> decimal(n).len() <= 3,
    decreases n,
{
    let text = decimal(n);
    let c = digit_char(n % 10);
    assert(digit_in(c, 10) == Some(n % 10));
    if n < 10 {
        assert(text =~= seq![c]);
        assert(digits_value(text, 0, 0, 10) == 0);
    } else {
        let before = decimal(n / 10);
        lemma_decimal(n / 10);
        let k = before.len() as int;
        assert(text =~= before.push(c));
        lemma_same_digits(text, 0, before, 0, k, 10);
        assert(text[k] == c);
        assert forall|i: int| 0 <= i < text.len() implies digit_in(#[trigger] text[i], 10) is Some by {
            if i < k {
                assert(text[i] == before[i]);
            }
        }
        assert(text[0] == before[0]);
        if n < 1000 {
            if n / 10 >= 10 {
                let shorter = decimal(n / 10 / 10);
                assert(before =~= shorter.push(digit_char(n / 10 % 10)));
                assert(n / 10 / 10 < 10);
                lemma_decimal(n / 10 / 10);
            }
        }
    }
}

proof fn lemma_same_digits(
    s: Seq<char>,
    p: int,
    text: Seq<char>,
    q: int,
    count: int,
    radix: nat,
)
    requires
        0 <= p,
        0 <= q,
        0 <= count,
        p + count <= s.len(),
        q + count <= text.len(),
        forall|i: int| 0 <= i < count ==> s[p + i] == #[trigger] text[q + i],
    ensures
        digits_value(s, p, p + count, radix) == digits_value(text, q, q + count, radix),
    decreases count,
{
    if count > 0 {
        lemma_same_digits(s, p, text, q, count - 1, radix);
        assert(s[p + (count - 1)] == text[q + (count - 1)]);
    }
}

proof fn lemma_decimal_at(s: Seq<char>, p: int, n: nat, form: NumberForm)
    requires
        stands_at(s, p, decimal(n)),
        p + decimal(n).len() == s.len() || digit_in(s[p + decimal(n).len()], 10) is None,
        form.radix == 10,
        n <= form.max,
        form.max_digits matches Some(most) ==> decimal(n).len() <= most,
    ensures
        number_at(s, p, form) == Some((n, p + decimal(n).len())),
{
    let text = decimal(n);
    let e = p + text.len();
    lemma_decimal(n);
    assert forall|i: int| 0 <= i < text.len() implies s[p + i] == #[trigger] text[0 + i] by {
        assert(s.subrange(p, e)[i] == s[p + i]);
    }
    assert forall|k: int| p <= k < e implies digit_in(#[trigger] s[k], 10) is Some by {
        assert(text[0 + (k - p)] == s[p + (k - p)]);
    }
    lemma_digits_end_step(s, p, e, 10);
    lemma_same_digits(s, p, text, 0, text.len() as int, 10);
    assert(s[p] == text[0]) by {
        assert(text[0 + 0int] == s[p + 0]);
    }
}

proof fn lemma_numeral(s: Seq<char>, p: int, e: int)
    requires
        0 <= p < e <= s.len(),
        forall|k: int| p <= k < e ==> digit_in(#[trigger] s[k], 10) is Some,
        s[p] == '0' ==> e == p + 1,
    ensures
        s.subrange(p, e) == decimal(digits_value(s, p, e, 10)),
        e > p + 1 ==> digits_value(s, p, e, 10) >= 10,
        s[p] != '0' ==> digits_value(s, p, e, 10) >= 1,
    decreases e - p,
{
    let last = digit_in(s[e - 1], 10)->0;
    let before = digits_value(s, p, e - 1, 10);
    assert(digit_char(last) == s[e - 1]);
    if e == p + 1 {
        assert(before == 0);
        assert(s.subrange(p, e) =~= seq![s[p]]);
    } else {
        lemma_numeral(s, p, e - 1);
        assert(s.subrange(p, e) =~= s.subrange(p, e - 1).push(s[e - 1]));
        assert((before * 10 + last) / 10 == before);
        assert((before * 10 + last) % 10 == last);
    }
}

proof fn lemma_run_of_digits(s: Seq<char>, p: int, radix: nat)
    requires
        0 <= p <= s.len(),
    ensures
        p <= digits_end(s, p, radix) <= s.len(),
        forall|k: int| p <= k < digits_end(s, p, radix) ==> digit_in(#[trigger] s[k], radix) is Some,
    decreases s.len() - p,
{
    if p < s.len() && digit_in(s[p], radix) is Some {
        lemma_run_of_digits(s, p + 1, radix);
    }
}

/// The text of a dotted address with a port.
pub open spec fn dotted(a: nat, b: nat, c: nat, d: nat) -> Seq<char> {
    decimal(a) + seq!['.'] + decimal(b) + seq!['.'] + decimal(c) + seq!['.'] + decimal(d)
}

proof fn lemma_dotted_at(s: Seq<char>, p: int, a: nat, b: nat, c: nat, d: nat)
    requires
        a <= 255,
        b <= 255,
        c <= 255,
        d <= 255,
        stands_at(s, p, dotted(a, b, c, d)),
        p + dotted(a, b, c, d).len() == s.len() || digit_in(
            s[p + dotted(a, b, c, d).len()],
            10,
        ) is None,
    ensures
        ipv4_at(s, p) == Some(
            (((a * 256 + b) * 256 + c) * 256 + d, p + dotted(a, b, c, d).len()),
        ),
{
    let whole = dotted(a, b, c, d);
    lemma_decimal(a);
    lemma_decimal(b);
    lemma_decimal(c);
    lemma_decimal(d);
    let p1 = p + decimal(a).len();
    let p2 = p1 + 1 + decimal(b).len();
    let p3 = p2 + 1 + decimal(c).len();
    let p4 = p3 + 1 + decimal(d).len();
    assert(p4 == p + whole.len());
    let inner = s.subrange(p, p + whole.len());
    assert(forall|i: int| 0 <= i < whole.len() ==> s[p + i] == #[trigger] inner[i]);
    assert(s.subrange(p, p1) =~= decimal(a)) by {
        assert(forall|i: int| 0 <= i < decimal(a).len() ==> inner[i] == #[trigger] decimal(a)[i]);
    }
    assert(inner[p1 - p] == '.');
    assert(s.subrange(p1 + 1, p2) =~= decimal(b)) by {
        assert forall|i: int| 0 <= i < decimal(b).len() implies s[p1 + 1 + i]
            == #[trigger] decimal(b)[i] by {
            assert(inner[p1 + 1 - p + i] == decimal(b)[i]);
        }
    }
    assert(inner[p2 - p] == '.');
    assert(s.subrange(p2 + 1, p3) =~= decimal(c)) by {
        assert forall|i: int| 0 <= i < decimal(c).len() implies s[p2 + 1 + i]
            == #[trigger] decimal(c)[i] by {
            assert(inner[p2 + 1 - p + i] == decimal(c)[i]);
        }
    }
    assert(inner[p3 - p] == '.');
    assert(s.subrange(p3 + 1, p4) =~= decimal(d)) by {
        assert forall|i: int| 0 <= i < decimal(d).len() implies s[p3 + 1 + i]
            == #[trigger] decimal(d)[i] by {
            assert(inner[p3 + 1 - p + i] == decimal(d)[i]);
        }
    }
    assert(s[p1] == '.' && s[p2] == '.' && s[p3] == '.');
    lemma_decimal_at(s, p, a, octet_form());
    lemma_decimal_at(s, p1 + 1, b, octet_form());
    lemma_decimal_at(s, p2 + 1, c, octet_form());
    lemma_decimal_at(s, p3 + 1, d, octet_form());
    let v3 = (a * 256 + b) * 256 + c;
    assert(ipv4_rest(s, p4, 4, v3 * 256 + d) == Some((v3 * 256 + d, p4)));
    assert(ipv4_rest(s, p3, 3, v3) == Some((v3 * 256 + d, p4)));
    assert(ipv4_rest(s, p2, 2, a * 256 + b) == Some((v3 * 256 + d, p4)));
    assert(ipv4_rest(s, p1, 1, a) == Some((v3 * 256 + d, p4)));
    assert(0 * 256 + a == a);
}

/// Four numbers up to 255 with dots between them, and behind a colon a port, are an address: the
/// numbers are its bytes, the first being the most significant.
pub proof fn dotted_addresses_are_read(a: nat, b: nat, c: nat, d: nat, port: nat)
    requires
        a <= 255,
        b <= 255,
        c <= 255,
        d <= 255,
        port <= 65535,
    ensures
        socket_addr(dotted(a, b, c, d) + seq![':'] + decimal(port)) == Some(
            SocketAddr::V4 {
                ip: (a * 0x100_0000 + b * 0x1_0000 + c * 0x100 + d) as u32,
                port: port as u16,
            },
        ),
{
    let head = dotted(a, b, c, d);
    let s = head + seq![':'] + decimal(port);
    let p = head.len() as int;
    lemma_decimal(port);
    assert(s.subrange(0, p) =~= head);
    assert(s[p] == ':');
    lemma_dotted_at(s, 0, a, b, c, d);
    assert(s.subrange(p + 1, s.len() as int) =~= decimal(port));
    lemma_decimal_at(s, p + 1, port, port_form());
    assert(((a * 256 + b) * 256 + c) * 256 + d == a * 0x100_0000 + b * 0x1_0000 + c * 0x100 + d);
}

proof fn lemma_octet(s: Seq<char>, p: int)
    requires
        0 <= p <= s.len(),
    ensures
        number_at(s, p, octet_form()) matches Some((n, e)) ==> p < e <= s.len() && n <= 255
            && s.subrange(p, e) == decimal(n),
{
    lemma_run_of_digits(s, p, 10);
    let e = digits_end(s, p, 10);
    if number_at(s, p, octet_form()) is Some {
        lemma_numeral(s, p, e);
    }
}

/// An address without brackets is four numbers up to 255, none of them with needless zeros, with dots
/// between them, and behind a colon the digits of a port.
pub proof fn only_dotted_addresses_have_no_brackets(s: Seq<char>)
    ensures
        socket_addr(s) matches Some(SocketAddr::V4 { ip, port }) ==> {
            let head = dotted(
                (ip / 0x100_0000) as nat,
                (ip / 0x1_0000 % 0x100) as nat,
                (ip / 0x100 % 0x100) as nat,
                (ip % 0x100) as nat,
            );
            let rest = s.skip(head.len() + 1int);
            &&& head.len() + 1 < s.len()
            &&& s == head + seq![':'] + rest
            &&& forall|i: int| 0 <= i < rest.len() ==> '0' <= #[trigger] rest[i] && rest[i] <= '9'
            &&& digits_value(rest, 0, rest.len() as int, 10) == port
        },
        s.len() > 0 && s[0] != '[' && socket_addr(s) is Some ==> socket_addr(s)->0 is V4,
        s.len() > 0 && s[0] == '[' ==> !(socket_addr(s) matches Some(SocketAddr::V4 { .. })),
{
    if s.len() > 0 && s[0] == '[' {
        assert(digit_in(s[0], 10) is None);
        assert(number_at(s, 0, octet_form()) is None);
        assert(ipv4_rest(s, 0, 0, 0) is None);
    }
    if let Some(SocketAddr::V4 { ip, port }) = socket_addr(s) {
        let (v, p) = ipv4_at(s, 0)->0;
        let (a, b, c, d) = lemma_dotted_back(s);
        lemma_bytes(a, b, c, d, v);
        let head = dotted(a, b, c, d);
        lemma_run_of_digits(s, p + 1, 10);
        let rest = s.skip(p + 1);
        assert(head.len() == p);
        assert(s =~= s.subrange(0, p) + seq![':'] + rest);
        assert(forall|i: int| 0 <= i < rest.len() ==> #[trigger] rest[i] == s[p + 1 + i]);
        lemma_same_digits(s, p + 1, rest, 0, rest.len() as int, 10);
        assert forall|i: int| 0 <= i < rest.len() implies '0' <= #[trigger] rest[i] && rest[i]
            <= '9' by {
            assert(digit_in(s[p + 1 + i], 10) is Some);
        }
    }
}

proof fn lemma_bytes(a: nat, b: nat, c: nat, d: nat, v: nat)
    requires
        a <= 255,
        b <= 255,
        c <= 255,
        d <= 255,
        v == ((a * 256 + b) * 256 + c) * 256 + d,
    ensures
        v <= u32::MAX,
        v / 0x100_0000 == a,
        v / 0x1_0000 % 0x100 == b,
        v / 0x100 % 0x100 == c,
        v % 0x100 == d,
{
    assert(v / 0x100 == (a * 256 + b) * 256 + c);
    assert(v / 0x1_0000 == a * 256 + b);
}

proof fn lemma_dotted_back(s: Seq<char>) -> (bytes: (nat, nat, nat, nat))
    requires
        ipv4_at(s, 0) is Some,
    ensures
        bytes.0 <= 255,
        bytes.1 <= 255,
        bytes.2 <= 255,
        bytes.3 <= 255,
        ({
            let (v, p) = ipv4_at(s, 0)->0;
            &&& v == ((bytes.0 * 256 + bytes.1) * 256 + bytes.2) * 256 + bytes.3
            &&& 0 <= p <= s.len()
            &&& s.subrange(0, p) == dotted(bytes.0, bytes.1, bytes.2, bytes.3)
        }),
{
    lemma_octet(s, 0);
    let (a, p1) = number_at(s, 0, octet_form())->0;
    assert(0 * 256 + a == a);
    assert(ipv4_rest(s, p1, 1, a) is Some);
    lemma_octet(s, p1 + 1);
    let (b, p2) = number_at(s, p1 + 1, octet_form())->0;
    assert(ipv4_rest(s, p2, 2, a * 256 + b) is Some);
    lemma_octet(s, p2 + 1);
    let (c, p3) = number_at(s, p2 + 1, octet_form())->0;
    assert(ipv4_rest(s, p3, 3, (a * 256 + b) * 256 + c) is Some);
    lemma_octet(s, p3 + 1);
    let (d, p4) = number_at(s, p3 + 1, octet_form())->0;
    let v = ((a * 256 + b) * 256 + c) * 256 + d;
    assert(ipv4_rest(s, p4, 4, v) == Some((v, p4)));
    assert(ipv4_at(s, 0) == Some((v, p4)));
    assert(s.subrange(0, p1) + seq!['.'] =~= s.subrange(0, p1 + 1));
    assert(s.subrange(0, p1 + 1) + s.subrange(p1 + 1, p2) =~= s.subrange(0, p2));
    assert(s.subrange(0, p2) + seq!['.'] =~= s.subrange(0, p2 + 1));
    assert(s.subrange(0, p2 + 1) + s.subrange(p2 + 1, p3) =~= s.subrange(0, p3));
    assert(s.subrange(0, p3) + seq!['.'] =~= s.subrange(0, p3 + 1));
    assert(s.subrange(0, p3 + 1) + s.subrange(p3 + 1, p4) =~= s.subrange(0, p4));
    (a, b, c, d)
}

proof fn lemma_hexadecimal(n: nat)
    requires
        n < 0x1_0000,
    ensures
        1 <= hexadecimal(n).len() <= 4,
        forall|i: int|
            0 <= i < hexadecimal(n).len() ==> digit_in(#[trigger] hexadecimal(n)[i], 16) is Some,
        digits_value(hexadecimal(n), 0, hexadecimal(n).len() as int, 16) == n,
{
    lemma_hex_digits(n);
    reveal_with_fuel(hexadecimal, 5);
    assert(n < 16 || n / 16 < 16 || n / 16 / 16 < 16 || n / 16 / 16 / 16 < 16);
}

proof fn lemma_hex_digits(n: nat)
    ensures
        hexadecimal(n).len() > 0,
        forall|i: int|
            0 <= i < hexadecimal(n).len() ==> digit_in(#[trigger] hexadecimal(n)[i], 16) is Some,
        digits_value(hexadecimal(n), 0, hexadecimal(n).len() as int, 16) == n,
    decreases n,
{
    let text = hexadecimal(n);
    let c = hex_char(n % 16);
    assert(digit_in(c, 16) == Some(n % 16));
    if n < 16 {
        assert(text =~= seq![c]);
        assert(digits_value(text, 0, 0, 16) == 0);
    } else {
        let before = hexadecimal(n / 16);
        lemma_hex_digits(n / 16);
        let k = before.len() as int;
        assert(text =~= before.push(c));
        lemma_same_digits(text, 0, before, 0, k, 16);
        assert(text[k] == c);
        assert forall|i: int| 0 <= i < text.len() implies digit_in(#[trigger] text[i], 16) is Some by {
            if i < k {
                assert(text[i] == before[i]);
            }
        }
    }
}

/// Whether no hexadecimal digit stands at `p`.
spec fn no_digit_at(s: Seq<char>, p: int) -> bool {
    p >= s.len() || digit_in(s[p], 16) is None
}

proof fn lemma_group_at(s: Seq<char>, p: int, n: nat)
    requires
        n < 0x1_0000,
        stands_at(s, p, hexadecimal(n)),
        no_digit_at(s, p + hexadecimal(n).len()),
        !char_at(s, p + hexadecimal(n).len(), '.'),
    ensures
        number_at(s, p, group_form()) == Some((n, p + hexadecimal(n).len())),
        ipv4_at(s, p) is None,
{
    let text = hexadecimal(n);
    let e = p + text.len();
    lemma_hexadecimal(n);
    assert forall|i: int| 0 <= i < text.len() implies s[p + i] == #[trigger] text[0 + i] by {
        assert(s.subrange(p, e)[i] == s[p + i]);
    }
    assert forall|k: int| p <= k < e implies digit_in(#[trigger] s[k], 16) is Some by {
        assert(text[0 + (k - p)] == s[p + (k - p)]);
    }
    lemma_digits_end_step(s, p, e, 16);
    lemma_same_digits(s, p, text, 0, text.len() as int, 16);
    lemma_run_of_digits(s, p, 10);
    let f = digits_end(s, p, 10);
    if f > e {
        assert(digit_in(s[e], 10) is Some);
        assert(digit_in(s[e], 16) is Some);
    }
    if let Some((octet, end)) = number_at(s, p, octet_form()) {
        assert(!char_at(s, f, '.'));
        assert(ipv4_rest(s, f, 1, octet) is None);
        assert(0 * 256 + octet == octet);
    }
}

proof fn lemma_nothing_at(s: Seq<char>, p: int)
    requires
        0 <= p,
        no_digit_at(s, p),
    ensures
        number_at(s, p, group_form()) is None,
        ipv4_at(s, p) is None,
{
    assert(digits_end(s, p, 16) == p);
    if p < s.len() {
        assert(digit_in(s[p], 10) is None);
    }
    assert(digits_end(s, p, 10) == p);
    assert(number_at(s, p, octet_form()) is None);
}

/// The number that groups form, the first being the most significant.
pub open spec fn run_value(groups: Seq<nat>) -> nat
    decreases groups.len(),
{
    if groups.len() == 0 {
        0
    } else {
        run_value(groups.drop_last()) * 0x1_0000 + groups.last()
    }
}

proof fn lemma_groups_prefix(g: Seq<nat>, k: int)
    requires
        0 <= k <= g.len(),
    ensures
        groups_text(g.take(k)).len() <= groups_text(g).len(),
        forall|i: int|
            0 <= i < groups_text(g.take(k)).len() ==> #[trigger] groups_text(g.take(k))[i]
                == groups_text(g)[i],
        0 < k < g.len() ==> groups_text(g.take(k)).len() < groups_text(g).len() && groups_text(
            g,
        )[groups_text(g.take(k)).len() as int] == ':',
    decreases g.len(),
{
    if k == g.len() {
        assert(g.take(k) =~= g);
    } else if k == 0 {
        assert(g.take(k) =~= seq![]);
    } else {
        let init = g.drop_last();
        lemma_groups_prefix(init, k);
        assert(init.take(k) =~= g.take(k));
        let before = groups_text(init);
        let text = groups_text(g);
        assert(text =~= before.push(':') + hexadecimal(g.last()));
        assert(forall|i: int| 0 <= i < before.len() ==> #[trigger] text[i] == before[i]);
        assert(text[before.len() as int] == ':');
        if k == init.len() {
            assert(init.take(k) =~= init);
        }
    }
}

/// Groups that stand in a text are read one after the other.
proof fn lemma_groups(s: Seq<char>, p: int, g: Seq<nat>, limit: nat, k: int)
    requires
        0 <= k <= g.len() <= limit,
        0 <= p,
        forall|i: int| 0 <= i < g.len() ==> #[trigger] g[i] < 0x1_0000,
        stands_at(s, p, groups_text(g)),
        ({
            let e = p + groups_text(g).len();
            &&& no_digit_at(s, e)
            &&& !char_at(s, e, '.')
            &&& g.len() == limit || g.len() > 0 && !char_at(s, e, ':') || no_digit_at(
                s,
                if g.len() == 0 {
                    e
                } else {
                    e + 1
                },
            )
        }),
    ensures
        groups_from(
            s,
            Groups {
                count: k as nat,
                value: run_value(g.take(k)),
                end: p + groups_text(g.take(k)).len(),
                dotted: false,
            },
            limit,
        ) == (Groups {
            count: g.len(),
            value: run_value(g),
            end: p + groups_text(g).len(),
            dotted: false,
        }),
    decreases g.len() - k,
{
    let text = groups_text(g);
    let e = p + text.len();
    if k == g.len() {
        assert(g.take(k) =~= g);
        if g.len() < limit && (g.len() == 0 || char_at(s, e, ':')) {
            lemma_nothing_at(
                s,
                if g.len() == 0 {
                    e
                } else {
                    e + 1
                },
            );
        }
    } else {
        let before = groups_text(g.take(k));
        let after = groups_text(g.take(k + 1));
        lemma_groups_prefix(g, k);
        lemma_groups_prefix(g, k + 1);
        assert(g.take(k + 1).drop_last() =~= g.take(k));
        assert(g.take(k + 1).last() == g[k]);
        let end = p + before.len();
        let q = if k == 0 {
            end
        } else {
            end + 1
        };
        let next = p + after.len();
        let whole = s.subrange(p, e);
        assert(forall|i: int| 0 <= i < text.len() ==> s[p + i] == #[trigger] whole[i]);
        if k == 0 {
            assert(g.take(0) =~= seq![]);
            assert(g.take(1) =~= seq![g[0]]);
            assert(after =~= hexadecimal(g[0]));
        } else {
            assert(after =~= before.push(':') + hexadecimal(g[k]));
            assert(whole[before.len() as int] == ':');
        }
        assert(s.subrange(q, next) =~= hexadecimal(g[k])) by {
            assert forall|i: int| 0 <= i < hexadecimal(g[k]).len() implies s[q + i]
                == #[trigger] hexadecimal(g[k])[i] by {
                assert(after[q - p + i] == hexadecimal(g[k])[i]);
                assert(whole[q - p + i] == text[q - p + i]);
            }
        }
        if k + 1 < g.len() {
            assert(whole[after.len() as int] == ':');
            assert(s[next] == ':');
        } else {
            assert(g.take(k + 1) =~= g);
        }
        lemma_group_at(s, q, g[k]);
        lemma_groups(s, p, g, limit, k + 1);
    }
}

proof fn lemma_run_value(one: Seq<nat>, other: Seq<nat>)
    ensures
        run_value(one + other) == run_value(one) * group_bound(other.len()) + run_value(other),
    decreases other.len(),
{
    if other.len() == 0 {
        let a = run_value(one);
        let bound = group_bound(other.len());
        assert(one + other =~= one);
        assert(a * bound == a) by (nonlinear_arith)
            requires
                bound == 1,
        ;
    } else {
        let init = other.drop_last();
        lemma_run_value(one, init);
        assert((one + other).drop_last() =~= one + init);
        let a = run_value(one);
        let bound = group_bound(init.len());
        assert(group_bound(other.len()) == 0x1_0000 * bound);
        assert((a * bound + run_value(init)) * 0x1_0000 == a * (0x1_0000 * bound) + run_value(init)
            * 0x1_0000) by (nonlinear_arith);
    }
}

proof fn lemma_zero_value(groups: Seq<nat>)
    requires
        forall|i: int| 0 <= i < groups.len() ==> #[trigger] groups[i] == 0,
    ensures
        run_value(groups) == 0,
    decreases groups.len(),
{
    if groups.len() > 0 {
        let init = groups.drop_last();
        assert(forall|i: int| 0 <= i < init.len() ==> #[trigger] init[i] == groups[i]);
        lemma_zero_value(init);
    }
}

proof fn lemma_segments_value(ip: nat, count: nat)
    requires
        ip < group_bound(count),
    ensures
        run_value(segments(ip, count)) == ip,
    decreases count,
{
    if count > 0 {
        let shorter = (count - 1) as nat;
        assert(ip / 0x1_0000 < group_bound(shorter)) by {
            assert(group_bound(count) == 0x1_0000 * group_bound(shorter));
        }
        lemma_segments_value(ip / 0x1_0000, shorter);
        assert(segments(ip, count).drop_last() =~= segments(ip / 0x1_0000, shorter));
    }
}

proof fn lemma_zero_run(groups: Seq<nat>, i: int)
    requires
        0 <= i <= groups.len(),
    ensures
        i + zero_run(groups, i) <= groups.len(),
        forall|k: int| i <= k < i + zero_run(groups, i) ==> #[trigger] groups[k] == 0,
        i + zero_run(groups, i) < groups.len() ==> groups[i + zero_run(groups, i)] != 0,
    decreases groups.len() - i,
{
    if i < groups.len() && groups[i] == 0 {
        lemma_zero_run(groups, i + 1);
    }
}

/// The run of zero groups that is left out is one of the longest, and of these the first.
pub proof fn first_longest_run_is_left_out(groups: Seq<nat>, count: nat, from: int, len: nat)
    requires
        count <= groups.len(),
        0 <= from < count,
        from + len <= groups.len(),
        forall|k: int| from <= k < from + len ==> #[trigger] groups[k] == 0,
    ensures
        ({
            let (start, longest) = longest_run(groups, count);
            &&& 0 <= start <= count
            &&& start + longest <= groups.len()
            &&& forall|k: int| start <= k < start + longest ==> #[trigger] groups[k] == 0
            &&& len <= longest
            &&& len == longest && len > 0 ==> start <= from
        }),
    decreases count,
{
    lemma_longest_run(groups, count);
    lemma_zero_run(groups, from);
    if zero_run(groups, from) < len {
        assert(groups[from + zero_run(groups, from)] == 0);
    }
    assert(zero_run(groups, from) <= longest_run(groups, count).1);
    if from < count - 1 {
        first_longest_run_is_left_out(groups, (count - 1) as nat, from, len);
    }
}

proof fn lemma_longest_run(groups: Seq<nat>, count: nat)
    requires
        count <= groups.len(),
    ensures
        ({
            let (start, longest) = longest_run(groups, count);
            &&& 0 <= start <= count
            &&& start + longest <= groups.len()
            &&& forall|k: int| start <= k < start + longest ==> #[trigger] groups[k] == 0
            &&& forall|i: int| 0 <= i < count ==> #[trigger] zero_run(groups, i) <= longest
        }),
    decreases count,
{
    if count > 0 {
        lemma_longest_run(groups, (count - 1) as nat);
        lemma_zero_run(groups, count - 1);
    }
}

proof fn lemma_mapped(s: Seq<char>, ip: nat)
    requires
        ip / 0x1_0000_0000 == 0xffff,
        stands_at(s, 1, ipv6_text(ip)),
        no_digit_at(s, 1int + ipv6_text(ip).len()),
        !char_at(s, 1int + ipv6_text(ip).len(), '.'),
    ensures
        ipv6_at(s, 1) == Some((ip, 1int + ipv6_text(ip).len())),
{
    let v = ip % 0x1_0000_0000;
    let text = ipv6_text(ip);
    let low = ipv4_text(v);
    let e = 1int + text.len();
    reveal_strlit("::ffff:");
    assert("::ffff:"@ =~= seq![':', ':', 'f', 'f', 'f', 'f', ':']);
    assert(text =~= "::ffff:"@ + low);
    let whole = s.subrange(1, e);
    assert(forall|i: int| 0 <= i < text.len() ==> s[1 + i] == #[trigger] whole[i]);
    assert(whole[0] == ':' && whole[1] == ':' && whole[2] == 'f' && whole[3] == 'f');
    assert(whole[4] == 'f' && whole[5] == 'f' && whole[6] == ':');
    let none = Seq::<nat>::empty();
    assert(groups_text(none) =~= seq![]);
    assert(s.subrange(1, 1) =~= seq![]);
    assert(none.take(0) =~= none);
    lemma_groups(s, 1, none, 8, 0);
    assert(groups_from(s, no_groups(1), 8) == no_groups(1));
    reveal_with_fuel(hexadecimal, 5);
    assert(hexadecimal(0xffff) =~= seq!['f', 'f', 'f', 'f']);
    assert(s.subrange(3, 7) =~= seq!['f', 'f', 'f', 'f']);
    lemma_group_at(s, 3, 0xffff);
    let a = v / 0x100_0000;
    let b = v / 0x1_0000 % 0x100;
    let c = v / 0x100 % 0x100;
    let d = v % 0x100;
    assert(low =~= dotted(a, b, c, d));
    assert(s.subrange(8, e) =~= low) by {
        assert forall|i: int| 0 <= i < low.len() implies s[8 + i] == #[trigger] low[i] by {
            assert(whole[7 + i] == low[i]);
        }
    }
    if e < s.len() {
        assert(digit_in(s[e], 10) is None);
    }
    lemma_dotted_at(s, 8, a, b, c, d);
    assert(((a * 256 + b) * 256 + c) * 256 + d == v);
    let first = Groups { count: 1, value: 0xffff, end: 7, dotted: false };
    let tail = Groups { count: 3, value: 0xffff * 0x1_0000_0000 + v, end: e, dotted: true };
    assert(groups_from(s, first, 7) == tail);
    assert(0 * 0x1_0000 + 0xffff == 0xffff);
    assert(groups_from(s, no_groups(3), 7) == tail);
    assert(0 * group_bound(8) == 0);
}

proof fn lemma_ipv6(s: Seq<char>, ip: nat)
    requires
        ip < group_bound(8),
        stands_at(s, 1, ipv6_text(ip)),
        no_digit_at(s, 1int + ipv6_text(ip).len()),
        !char_at(s, 1int + ipv6_text(ip).len(), '.'),
        !char_at(s, 1int + ipv6_text(ip).len(), ':'),
    ensures
        ipv6_at(s, 1) == Some((ip, 1int + ipv6_text(ip).len())),
{
    let g = segments(ip, 8);
    let text = ipv6_text(ip);
    let e = 1int + text.len();
    let (start, len) = longest_run(g, 8);
    lemma_segments_len(ip, 8);
    lemma_segments_value(ip, 8);
    lemma_longest_run(g, 8);
    let none = Seq::<nat>::empty();
    assert(groups_text(none).len() == 0 && run_value(none) == 0);
    if ip / 0x1_0000_0000 == 0xffff {
        lemma_mapped(s, ip);
    } else if len > 1 {
        let one = g.take(start);
        let other = g.skip(start + len);
        let head = groups_text(one);
        let tail = groups_text(other);
        reveal_strlit("::");
        assert("::"@ =~= seq![':', ':']);
        assert(text =~= head + seq![':', ':'] + tail);
        let whole = s.subrange(1, e);
        assert(forall|i: int| 0 <= i < text.len() ==> s[1 + i] == #[trigger] whole[i]);
        let m = 1int + head.len();
        assert(whole[head.len() as int] == ':' && whole[head.len() + 1int] == ':');
        assert(s.subrange(1, m) =~= head) by {
            assert(forall|i: int| 0 <= i < head.len() ==> whole[i] == #[trigger] head[i]);
        }
        assert(s.subrange(m + 2, e) =~= tail) by {
            assert forall|i: int| 0 <= i < tail.len() implies s[m + 2 + i] == #[trigger] tail[i] by {
                assert(whole[head.len() + 2 + i] == tail[i]);
            }
        }
        assert(one.take(0) =~= none);
        assert(other.take(0) =~= none);
        lemma_groups(s, 1, one, 8, 0);
        lemma_groups(s, m + 2, other, (7 - start) as nat, 0);
        let zeros = g.subrange(start, start + len);
        lemma_zero_value(zeros);
        lemma_run_value(zeros, other);
        lemma_run_value(one, zeros + other);
        assert(g =~= one + (zeros + other));
        assert((zeros + other).len() == 8 - start);
        assert(0 * group_bound(other.len()) == 0);
    } else {
        assert(g.take(0) =~= none);
        lemma_groups(s, 1, g, 8, 0);
    }
}

proof fn lemma_bracketed(s: Seq<char>, ip: nat, scope_id: nat, port: nat, e: int, q: int)
    requires
        ip < group_bound(8),
        scope_id <= u32::MAX,
        port <= u16::MAX,
        s.len() > 0 && s[0] == '[',
        stands_at(s, 1, ipv6_text(ip)),
        e == 1 + ipv6_text(ip).len(),
        e <= q < s.len() - 1,
        s[q] == ']' && s[q + 1] == ':',
        scope_id == 0 ==> q == e,
        scope_id != 0 ==> s[e] == '%' && stands_at(s, e + 1, decimal(scope_id)) && q == e + 1
            + decimal(scope_id).len(),
        stands_at(s, q + 2, decimal(port)),
        s.len() == q + 2 + decimal(port).len(),
    ensures
        socket_addr(s) == Some(
            SocketAddr::V6 { ip: ip as u128, scope_id: scope_id as u32, port: port as u16 },
        ),
{
    if scope_id != 0 {
        lemma_decimal(scope_id);
        lemma_decimal_at(s, e + 1, scope_id, scope_form());
    }
    lemma_ipv6(s, ip);
    lemma_decimal_at(s, q + 2, port, port_form());
    assert(scope_at(s, e) == (scope_id, q));
    assert(digits_end(s, 0, 10) == 0);
    assert(number_at(s, 0, octet_form()) is None);
    assert(ipv4_rest(s, 0, 0, 0) is None);
    assert(socket_v4(s) is None);
}

proof fn lemma_bracketed_parts(text: Seq<char>, scope: Seq<char>, last: Seq<char>)
    ensures
        ({
            let s = seq!['['] + text + scope + seq![']', ':'] + last;
            let e = 1int + text.len();
            let q = e + scope.len();
            &&& s.len() == q + 2 + last.len()
            &&& s[0] == '['
            &&& s[q] == ']'
            &&& s[q + 1] == ':'
            &&& stands_at(s, 1, text)
            &&& stands_at(s, e, scope)
            &&& stands_at(s, q + 2, last)
        }),
{
    let s = seq!['['] + text + scope + seq![']', ':'] + last;
    let e = 1int + text.len();
    let q = e + scope.len();
    assert(s.subrange(1, e) =~= text);
    assert(s.subrange(e, q) =~= scope);
    assert(s.subrange(q + 2, q + 2 + last.len()) =~= last);
}

proof fn lemma_v6_reads_back(ip: u128, scope_id: u32, port: u16)
    ensures
        socket_addr(addr_text(SocketAddr::V6 { ip, scope_id, port })) == Some(
            SocketAddr::V6 { ip, scope_id, port },
        ),
{
    let text = ipv6_text(ip as nat);
    let last = decimal(port as nat);
    let number = decimal(scope_id as nat);
    let scope = if scope_id == 0 {
        Seq::<char>::empty()
    } else {
        seq!['%'] + number
    };
    let s = seq!['['] + text + scope + seq![']', ':'] + last;
    let e = 1int + text.len();
    let q = e + scope.len();
    assert(s == addr_text(SocketAddr::V6 { ip, scope_id, port })) by {
        reveal_strlit("[");
        reveal_strlit("%");
        reveal_strlit("]:");
        assert("["@ =~= seq!['[']);
        assert("%"@ =~= seq!['%']);
        assert("]:"@ =~= seq![']', ':']);
        assert(Seq::<char>::empty() =~= seq![]);
    }
    lemma_bracketed_parts(text, scope, last);
    if scope_id != 0 {
        let inner = s.subrange(e, q);
        assert(inner == scope);
        assert(s[e] == inner[0] && scope[0] == '%');
        assert(s.subrange(e + 1, q) =~= inner.subrange(1, inner.len() as int));
        assert(scope.subrange(1, scope.len() as int) =~= number);
    }
    assert(group_bound(8) == 0x1_0000_0000_0000_0000_0000_0000_0000_0000) by {
        reveal_with_fuel(group_bound, 9);
    }
    lemma_bracketed(s, ip as nat, scope_id as nat, port as nat, e, q);
}

proof fn lemma_joined_parts(a: Seq<char>, b: Seq<char>, c: Seq<char>, d: Seq<char>, e: Seq<char>)
    ensures
        (a.push('.') + b.push('.') + c.push('.') + d).push(':') + e == a + seq!['.'] + b + seq!['.']
            + c + seq!['.'] + d + seq![':'] + e,
{
    assert(a.push('.') =~= a + seq!['.']);
    assert(a + seq!['.'] + b.push('.') =~= a + seq!['.'] + b + seq!['.']);
    let front = a + seq!['.'] + b + seq!['.'];
    assert(front + c.push('.') =~= front + c + seq!['.']);
    let whole = front + c + seq!['.'] + d;
    assert(whole.push(':') =~= whole + seq![':']);
}

proof fn lemma_v4_reads_back(ip: u32, port: u16)
    ensures
        socket_addr(addr_text(SocketAddr::V4 { ip, port })) == Some(SocketAddr::V4 { ip, port }),
{
    let v = ip as nat;
    let a = v / 0x100_0000;
    let b = v / 0x1_0000 % 0x100;
    let c = v / 0x100 % 0x100;
    let d = v % 0x100;
    lemma_joined_parts(decimal(a), decimal(b), decimal(c), decimal(d), decimal(port as nat));
    dotted_addresses_are_read(a, b, c, d, port as nat);
    assert(a * 0x100_0000 + b * 0x1_0000 + c * 0x100 + d == v);
}

/// An address that is written out reads back as itself.
pub proof fn written_addresses_read_back(addr: SocketAddr)
    ensures
        socket_addr(addr_text(addr)) == Some(addr),
{
    match addr {
        SocketAddr::V4 { ip, port } => {
            lemma_v4_reads_back(ip, port);
        },
        SocketAddr::V6 { ip, scope_id, port } => {
            lemma_v6_reads_back(ip, scope_id, port);
        },
    }
}

} // verus!
