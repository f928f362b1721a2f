//! File paths as the byte strings that a Unix host uses.
use vstd::prelude::*;
use vstd::utf8::*;

use crate::text::{bytes_eq, bytes_to_vec, contains_byte, utf8_of};

verus! {

/// The byte that separates the components of a path.
pub const SEPARATOR: u8 = 47;

/// The byte that names the current directory.
pub const DOT: u8 = 46;

/// A path: any bytes, with `/` between components.
#[derive(Debug)]
pub struct UnixPath {
    pub bytes: Vec<u8>,
}

impl View for UnixPath {
    type V = Seq<u8>;

    open spec fn view(&self) -> Seq<u8> {
        self.bytes@
    }
}

impl Clone for UnixPath {
    fn clone(&self) -> (copy: Self)
        ensures
            copy@ == self@,
    {
        UnixPath { bytes: bytes_to_vec(self.bytes.as_slice()) }
    }
}

impl PartialEq for UnixPath {
    fn eq(&self, other: &Self) -> (equal: bool) {
        self.normalize().same(&other.normalize())
    }
}

impl Eq for UnixPath {

}

impl vstd::std_specs::cmp::PartialEqSpecImpl for UnixPath {
    open spec fn obeys_eq_spec() -> bool {
        true
    }

    /// Paths are equal when they have the same components.
    open spec fn eq_spec(&self, other: &Self) -> bool {
        normalized(self@) == normalized(other@)
    }
}

/// The view of an optional path.
pub open spec fn path_view(path: Option<UnixPath>) -> Option<Seq<u8>> {
    match path {
        Some(path) => Some(path@),
        None => None,
    }
}

/// A path is absolute when it begins at the root.
pub open spec fn is_absolute(path: Seq<u8>) -> bool {
    path.len() > 0 && path[0] == SEPARATOR
}

/// Whether a relative path spells the current directory first (`.` or `./...`).
pub open spec fn has_leading_dot(path: Seq<u8>) -> bool {
    path.len() > 0 && path[0] == DOT && (path.len() == 1 || path[1] == SEPARATOR)
}

/// Where the components that follow the root or the leading `.` begin.
pub open spec fn body_start(path: Seq<u8>) -> int {
    if is_absolute(path) || has_leading_dot(path) {
        1
    } else {
        0
    }
}

/// A component that names nothing: empty, or the current directory.
pub open spec fn is_void(component: Seq<u8>) -> bool {
    component.len() == 0 || component == seq![DOT]
}

/// Where the last component of `path` begins, not looking before `from`.
pub open spec fn last_start(path: Seq<u8>, from: int) -> int
    decreases path.len(),
{
    if path.len() == 0 || path.len() <= from {
        from
    } else if path.last() == SEPARATOR {
        path.len() as int
    } else {
        last_start(path.drop_last(), from)
    }
}

/// `path` without its last component and the separator before it.
pub open spec fn drop_last_component(path: Seq<u8>, from: int) -> Seq<u8> {
    let start = last_start(path, from);
    if start > from {
        path.take(start - 1)
    } else {
        path.take(from)
    }
}

/// `path` without the components at its end that name nothing.
pub open spec fn trim_end(path: Seq<u8>, from: int) -> Seq<u8>
    decreases path.len(),
{
    if path.len() <= from || from < 0 {
        path
    } else {
        let start = last_start(path, from);
        if is_void(path.skip(start)) && drop_last_component(path, from).len() < path.len() {
            trim_end(drop_last_component(path, from), from)
        } else {
            path
        }
    }
}

/// The directory that holds `path`: the path without its final component. The root and the empty
/// path have none.
pub open spec fn parent_of(path: Seq<u8>) -> Option<Seq<u8>> {
    let from = body_start(path);
    let trimmed = trim_end(path, from);
    if trimmed.len() > from {
        Some(trim_end(drop_last_component(trimmed, from), from))
    } else if has_leading_dot(path) {
        Some(seq![])
    } else {
        None
    }
}

/// `path` read in the directory `base`.
pub open spec fn joined(base: Seq<u8>, path: Seq<u8>) -> Seq<u8> {
    if is_absolute(path) {
        path
    } else if base.len() > 0 && base.last() != SEPARATOR {
        base.push(SEPARATOR) + path
    } else {
        base + path
    }
}

/// Adds a component to a path under construction, with a separator where one is needed.
pub open spec fn with_component(path: Seq<u8>, component: Seq<u8>) -> Seq<u8> {
    if is_void(component) {
        path
    } else if path.len() > 0 && path.last() != SEPARATOR {
        path.push(SEPARATOR) + component
    } else {
        path + component
    }
}

/// The length of the first component of `rest`.
pub open spec fn component_len(rest: Seq<u8>) -> int
    decreases rest.len(),
{
    if rest.len() == 0 || rest[0] == SEPARATOR {
        0
    } else {
        1 + component_len(rest.skip(1))
    }
}

/// `path`, extended by the components of `rest` that name something.
pub open spec fn with_components(path: Seq<u8>, rest: Seq<u8>) -> Seq<u8>
    decreases rest.len(),
    via with_components_decreases
{
    let size = component_len(rest);
    let next = with_component(path, rest.take(size));
    if size >= rest.len() {
        next
    } else {
        with_components(next, rest.skip(size + 1))
    }
}

#[via_fn]
proof fn with_components_decreases(path: Seq<u8>, rest: Seq<u8>) {
    lemma_component_len(rest);
}

/// The same path with one separator between components and no component that names nothing,
/// except a leading `.` of a relative path.
pub open spec fn normalized(path: Seq<u8>) -> Seq<u8> {
    with_components(path.take(body_start(path)), path.skip(body_start(path)))
}

proof fn lemma_component_len(rest: Seq<u8>)
    ensures
        0 <= component_len(rest) <= rest.len(),
        component_len(rest) < rest.len() ==> rest[component_len(rest)] == SEPARATOR,
        forall|i: int| 0 <= i < component_len(rest) ==> rest[i] != SEPARATOR,
    decreases rest.len(),
{
    if rest.len() > 0 && rest[0] != SEPARATOR {
        lemma_component_len(rest.skip(1));
        let n = component_len(rest.skip(1));
        assert(n < rest.skip(1).len() ==> rest.skip(1)[n] == rest[n + 1]);
        assert forall|i: int| 0 <= i < component_len(rest) implies rest[i] != SEPARATOR by {
            if i > 0 {
                assert(rest.skip(1)[i - 1] == rest[i]);
            }
        }
    }
}

proof fn lemma_last_start(path: Seq<u8>, from: int)
    requires
        0 <= from <= path.len(),
    ensures
        from <= last_start(path, from) <= path.len(),
        last_start(path, from) > from ==> path[last_start(path, from) - 1] == SEPARATOR,
    decreases path.len() - from,
{
    if path.len() > from && path.last() != SEPARATOR {
        lemma_last_start(path.drop_last(), from);
    }
}

proof fn lemma_drop_last_component(path: Seq<u8>, from: int)
    requires
        0 <= from < path.len(),
    ensures
        from <= drop_last_component(path, from).len() < path.len(),
{
    lemma_last_start(path, from);
}

/// Whether the bytes of `bytes` from `from` up to `to` name nothing.
fn range_is_void(bytes: &Vec<u8>, from: usize, to: usize) -> (void: bool)
    requires
        from <= to <= bytes@.len(),
    ensures
        void == is_void(bytes@.subrange(from as int, to as int)),
{
    let ghost part = bytes@.subrange(from as int, to as int);
    if from == to {
        return true;
    }
    if to - from == 1 && bytes[from] == DOT {
        assert(part =~= seq![DOT]);
        return true;
    }
    assert(part == seq![DOT] ==> part.len() == 1 && part[0] == DOT);
    false
}

/// Where the last component of the first `len` bytes begins.
fn find_last_start(bytes: &Vec<u8>, len: usize, from: usize) -> (start: usize)
    requires
        from <= len <= bytes@.len(),
    ensures
        start == last_start(bytes@.take(len as int), from as int),
        from <= start <= len,
{
    let mut end: usize = len;
    while end > from
        invariant
            from <= end <= len <= bytes@.len(),
            last_start(bytes@.take(len as int), from as int) == last_start(
                bytes@.take(end as int),
                from as int,
            ),
        decreases end,
    {
        assert(bytes@.take(end as int).last() == bytes@[end - 1]);
        if bytes[end - 1] == SEPARATOR {
            return end;
        }
        assert(bytes@.take(end as int).drop_last() =~= bytes@.take(end - 1));
        end -= 1;
    }
    end
}

/// How many of the first `len` bytes are left without the components at the end that name nothing.
fn trimmed_len(bytes: &Vec<u8>, len: usize, from: usize) -> (kept: usize)
    requires
        from <= len <= bytes@.len(),
    ensures
        from <= kept <= len,
        bytes@.take(kept as int) == trim_end(bytes@.take(len as int), from as int),
{
    let mut end: usize = len;
    while end > from
        invariant
            from <= end <= len <= bytes@.len(),
            trim_end(bytes@.take(len as int), from as int) == trim_end(
                bytes@.take(end as int),
                from as int,
            ),
        decreases end,
    {
        let ghost here = bytes@.take(end as int);
        let start = find_last_start(bytes, end, from);
        assert(here.skip(start as int) =~= bytes@.subrange(start as int, end as int));
        proof {
            lemma_drop_last_component(here, from as int);
        }
        if !range_is_void(bytes, start, end) {
            return end;
        }
        if start > from {
            assert(drop_last_component(here, from as int) =~= bytes@.take(start - 1));
            end = start - 1;
        } else {
            assert(drop_last_component(here, from as int) =~= bytes@.take(from as int));
            end = from;
        }
    }
    end
}

impl UnixPath {
    /// The path that a string spells.
    pub fn new(text: &str) -> (path: UnixPath)
        ensures
            path@ == encode_utf8(text@),
    {
        UnixPath { bytes: utf8_of(text) }
    }

    /// Whether two paths are spelled alike.
    pub fn same(&self, other: &UnixPath) -> (same: bool)
        ensures
            same == (self@ == other@),
    {
        bytes_eq(&self.bytes, &other.bytes)
    }

    /// Whether the path begins at the root.
    pub fn is_absolute(&self) -> (yes: bool)
        ensures
            yes == is_absolute(self@),
    {
        self.bytes.len() > 0 && self.bytes[0] == SEPARATOR
    }

    /// Whether the path holds a NUL byte.
    pub fn has_nul(&self) -> (yes: bool)
        ensures
            yes == self@.contains(0u8),
    {
        contains_byte(&self.bytes, 0)
    }

    /// Where the components after the root or the leading `.` begin.
    fn start(&self) -> (start: usize)
        ensures
            start == body_start(self@),
            start <= self@.len(),
    {
        let bytes = &self.bytes;
        if bytes.len() > 0 && (bytes[0] == SEPARATOR || (bytes[0] == DOT && (bytes.len() == 1
            || bytes[1] == SEPARATOR))) {
            1
        } else {
            0
        }
    }

    /// The directory that holds this path.
    pub fn parent(&self) -> (parent: Option<UnixPath>)
        ensures
            path_view(parent) == parent_of(self@),
    {
        let from = self.start();
        let bytes = &self.bytes;
        let len = bytes.len();
        assert(bytes@.take(len as int) =~= bytes@);
        let kept = trimmed_len(bytes, len, from);
        if kept > from {
            let start = find_last_start(bytes, kept, from);
            let end: usize = if start > from {
                start - 1
            } else {
                from
            };
            let ghost here = bytes@.take(kept as int);
            assert(drop_last_component(here, from as int) =~= bytes@.take(end as int));
            let size = trimmed_len(bytes, end, from);
            let mut out: Vec<u8> = Vec::new();
            let mut i: usize = 0;
            while i < size
                invariant
                    i <= size <= bytes@.len(),
                    out@ == bytes@.take(i as int),
                decreases size - i,
            {
                out.push(bytes[i]);
                assert(out@ =~= bytes@.take(i + 1));
                i += 1;
            }
            Some(UnixPath { bytes: out })
        } else if from == 1 && bytes[0] == DOT {
            let path = UnixPath { bytes: Vec::new() };
            assert(path@ =~= seq![]);
            Some(path)
        } else {
            None
        }
    }

    /// `path` read in this directory.
    pub fn join(&self, path: &UnixPath) -> (full: UnixPath)
        ensures
            full@ == joined(self@, path@),
    {
        if path.is_absolute() {
            return path.clone();
        }
        let mut out = bytes_to_vec(self.bytes.as_slice());
        if out.len() > 0 && out[out.len() - 1] != SEPARATOR {
            out.push(SEPARATOR);
        }
        push_range(&mut out, &path.bytes, 0, path.bytes.len());
        assert(path.bytes@.subrange(0, path.bytes@.len() as int) =~= path.bytes@);
        UnixPath { bytes: out }
    }

    /// The same path with one separator between components and without components that name
    /// nothing.
    pub fn normalize(&self) -> (plain: UnixPath)
        ensures
            plain@ == normalized(self@),
    {
        let bytes = &self.bytes;
        let from = self.start();
        let mut out: Vec<u8> = Vec::new();
        push_range(&mut out, bytes, 0, from);
        assert(out@ =~= bytes@.take(from as int));
        let mut at: usize = from;
        let mut done = false;
        while !done
            invariant
                at <= bytes@.len(),
                done ==> out@ == normalized(bytes@),
                !done ==> normalized(bytes@) == with_components(out@, bytes@.skip(at as int)),
            decreases (if done { 0 } else { bytes@.len() - at + 1 }),
        {
            let ghost rest = bytes@.skip(at as int);
            let ghost before = out@;
            proof {
                lemma_component_len(rest);
            }
            let end = component_end(bytes, at);
            assert(rest.take(end - at) =~= bytes@.subrange(at as int, end as int));
            if !range_is_void(bytes, at, end) {
                if out.len() > 0 && out[out.len() - 1] != SEPARATOR {
                    out.push(SEPARATOR);
                }
                push_range(&mut out, bytes, at, end);
            }
            assert(out@ == with_component(before, rest.take(end - at)));
            if end < bytes.len() {
                assert(rest.skip(end - at + 1) =~= bytes@.skip(end + 1));
                at = end + 1;
            } else {
                done = true;
            }
        }
        UnixPath { bytes: out }
    }
}

/// Where the component that begins at `at` ends.
fn component_end(bytes: &Vec<u8>, at: usize) -> (end: usize)
    requires
        at <= bytes@.len(),
    ensures
        at <= end <= bytes@.len(),
        end - at == component_len(bytes@.skip(at as int)),
{
    let mut end: usize = at;
    while end < bytes.len() && bytes[end] != SEPARATOR
        invariant
            at <= end <= bytes@.len(),
            component_len(bytes@.skip(at as int)) == end - at + component_len(
                bytes@.skip(end as int),
            ),
        decreases bytes@.len() - end,
    {
        assert(bytes@.skip(end as int)[0] == bytes@[end as int]);
        assert(bytes@.skip(end as int).skip(1) =~= bytes@.skip(end + 1));
        end += 1;
    }
    proof {
        if end < bytes@.len() {
            assert(bytes@.skip(end as int)[0] == bytes@[end as int]);
        }
    }
    end
}

/// Appends the bytes of `source` from `from` up to `to`.
fn push_range(out: &mut Vec<u8>, source: &Vec<u8>, from: usize, to: usize)
    requires
        from <= to <= source@.len(),
    ensures
        final(out)@ == old(out)@ + source@.subrange(from as int, to as int),
{
    let ghost before = out@;
    let mut i: usize = from;
    while i < to
        invariant
            from <= i <= to <= source@.len(),
            out@ == before + source@.subrange(from as int, i as int),
        decreases to - i,
    {
        out.push(source[i]);
        assert(source@.subrange(from as int, i + 1) =~= source@.subrange(
            from as int,
            i as int,
        ).push(source@[i as int]));
        assert(out@ =~= before + source@.subrange(from as int, i + 1));
        i += 1;
    }
    assert(out@ =~= before + source@.subrange(from as int, to as int));
}

proof fn lemma_with_components_extends(path: Seq<u8>, rest: Seq<u8>)
    ensures
        with_components(path, rest).len() >= path.len(),
        with_components(path, rest).take(path.len() as int) == path,
    decreases rest.len(),
{
    lemma_component_len(rest);
    let size = component_len(rest);
    let next = with_component(path, rest.take(size));
    assert(next.take(path.len() as int) =~= path);
    if size < rest.len() {
        lemma_with_components_extends(next, rest.skip(size + 1));
        let full = with_components(next, rest.skip(size + 1));
        assert(full.take(path.len() as int) =~= full.take(next.len() as int).take(
            path.len() as int,
        ));
    }
}

proof fn lemma_relative_stays(rest: Seq<u8>)
    ensures
        !is_absolute(with_components(seq![], rest)),
    decreases rest.len(),
{
    lemma_component_len(rest);
    let size = component_len(rest);
    let component = rest.take(size);
    let next = with_component(seq![], component);
    if is_void(component) {
        if size < rest.len() {
            lemma_relative_stays(rest.skip(size + 1));
        }
    } else {
        assert(next =~= component);
        assert(rest[0] != SEPARATOR);
        if size < rest.len() {
            lemma_with_components_extends(next, rest.skip(size + 1));
            let full = with_components(next, rest.skip(size + 1));
            assert(full.take(next.len() as int)[0] == next[0]);
        }
    }
}

/// Normalizing a path keeps the root that it begins at, and gives no root to a path without one.
pub proof fn normalized_keeps_root(path: Seq<u8>)
    ensures
        is_absolute(normalized(path)) == is_absolute(path),
{
    let from = body_start(path);
    if from == 1 {
        lemma_with_components_extends(path.take(1), path.skip(1));
        assert(normalized(path).take(1)[0] == path[0]);
    } else {
        assert(path.take(0) =~= seq![]);
        lemma_relative_stays(path.skip(0));
    }
}

/// Components at the end of `rest` are added last.
proof fn lemma_last_component(path: Seq<u8>, rest: Seq<u8>, component: Seq<u8>)
    requires
        forall|i: int| 0 <= i < component.len() ==> component[i] != SEPARATOR,
    ensures
        with_components(path, rest.push(SEPARATOR) + component) == with_component(
            with_components(path, rest),
            component,
        ),
    decreases rest.len(),
{
    let whole = rest.push(SEPARATOR) + component;
    let size = component_len(rest);
    lemma_component_len(rest);
    lemma_component_stops(whole, size);
    assert(whole.take(size) =~= rest.take(size));
    let next = with_component(path, rest.take(size));
    if size >= rest.len() {
        assert(whole.skip(size + 1) =~= component);
        lemma_component_whole(component);
        assert(component.take(component.len() as int) =~= component);
        assert(with_components(next, component) == with_component(next, component));
        assert(with_components(path, whole) == with_components(next, whole.skip(size + 1)));
    } else {
        assert(whole.skip(size + 1) =~= rest.skip(size + 1).push(SEPARATOR) + component);
        lemma_last_component(next, rest.skip(size + 1), component);
    }
}

/// The first component ends at the first separator.
proof fn lemma_component_stops(rest: Seq<u8>, size: int)
    requires
        0 <= size < rest.len(),
        rest[size] == SEPARATOR,
        forall|i: int| 0 <= i < size ==> rest[i] != SEPARATOR,
    ensures
        component_len(rest) == size,
    decreases rest.len(),
{
    if size > 0 {
        assert(rest[0] != SEPARATOR);
        let less = rest.skip(1);
        assert forall|i: int| 0 <= i < size - 1 implies less[i] != SEPARATOR by {
            assert(rest[i + 1] != SEPARATOR);
        }
        lemma_component_stops(less, size - 1);
    }
}

/// Without a separator everything is one component.
proof fn lemma_component_whole(rest: Seq<u8>)
    requires
        forall|i: int| 0 <= i < rest.len() ==> rest[i] != SEPARATOR,
    ensures
        component_len(rest) == rest.len(),
    decreases rest.len(),
{
    if rest.len() > 0 {
        assert(rest[0] != SEPARATOR);
        let less = rest.skip(1);
        assert forall|i: int| 0 <= i < less.len() implies less[i] != SEPARATOR by {
            assert(rest[i + 1] != SEPARATOR);
        }
        lemma_component_whole(less);
    }
}

/// A path from the root whose components are all that it is made of.
spec fn is_settled(path: Seq<u8>) -> bool {
    &&& path.len() > 0
    &&& path[0] == SEPARATOR
    &&& path.len() > 1 ==> path.last() != SEPARATOR
    &&& with_components(path.take(1), path.skip(1)) == path
}

proof fn lemma_settled_component(path: Seq<u8>, component: Seq<u8>)
    requires
        is_settled(path),
        forall|i: int| 0 <= i < component.len() ==> component[i] != SEPARATOR,
    ensures
        is_settled(with_component(path, component)),
{
    if !is_void(component) {
        let after = with_component(path, component);
        let root = path.take(1);
        let body = path.skip(1);
        assert(root =~= seq![SEPARATOR]);
        assert(after.take(1) =~= root);
        assert(after.last() == component.last());
        if path.len() > 1 {
            assert(after.skip(1) =~= body.push(SEPARATOR) + component);
            lemma_last_component(root, body, component);
        } else {
            assert(path =~= root);
            assert(after.skip(1) =~= component);
            lemma_component_whole(component);
            assert(component.take(component.len() as int) =~= component);
        }
    }
}

proof fn lemma_settled_components(path: Seq<u8>, rest: Seq<u8>)
    requires
        is_settled(path),
    ensures
        is_settled(with_components(path, rest)),
    decreases rest.len(),
{
    let size = component_len(rest);
    lemma_component_len(rest);
    let component = rest.take(size);
    assert forall|i: int| 0 <= i < component.len() implies component[i] != SEPARATOR by {
        assert(rest[i] != SEPARATOR);
    }
    lemma_settled_component(path, component);
    if size < rest.len() {
        lemma_settled_components(with_component(path, component), rest.skip(size + 1));
    }
}

/// Normalizing a path from the root again changes nothing.
pub proof fn normalized_path_stays(path: Seq<u8>)
    requires
        is_absolute(path),
    ensures
        normalized(normalized(path)) == normalized(path),
{
    let root = path.take(1);
    assert(root =~= seq![SEPARATOR]);
    assert(root.skip(1) =~= seq![]);
    assert(with_components(root.take(1), root.skip(1)) == root) by {
        assert(root.take(1) =~= root);
        assert(component_len(seq![]) == 0);
        assert(Seq::<u8>::empty().take(0) =~= seq![]);
    }
    lemma_settled_components(root, path.skip(1));
}

/// Components with a separator between them.
pub open spec fn spelled(components: Seq<Seq<u8>>) -> Seq<u8>
    decreases components.len(),
{
    if components.len() == 0 {
        seq![]
    } else if components.len() == 1 {
        components[0]
    } else {
        components[0] + seq![47u8] + spelled(components.skip(1))
    }
}

/// Components without those that are empty or a single dot.
pub open spec fn telling(components: Seq<Seq<u8>>) -> Seq<Seq<u8>>
    decreases components.len(),
{
    if components.len() == 0 {
        seq![]
    } else if components[0].len() == 0 || components[0] == seq![46u8] {
        telling(components.skip(1))
    } else {
        seq![components[0]] + telling(components.skip(1))
    }
}

/// Whether components hold no separator.
pub open spec fn are_components(components: Seq<Seq<u8>>) -> bool {
    forall|i: int| 0 <= i < components.len() ==> !(#[trigger] components[i]).contains(47u8)
}

spec fn added(path: Seq<u8>, names: Seq<Seq<u8>>) -> Seq<u8>
    decreases names.len(),
{
    if names.len() == 0 {
        path
    } else if path.len() > 0 && path.last() != 47 {
        added(path + seq![47u8] + names[0], names.skip(1))
    } else {
        added(path + names[0], names.skip(1))
    }
}

proof fn lemma_added(path: Seq<u8>, components: Seq<Seq<u8>>)
    requires
        are_components(components),
        components.len() > 0,
    ensures
        with_components(path, spelled(components)) == added(path, telling(components)),
    decreases components.len(),
{
    let first = components[0];
    let rest = components.skip(1);
    let text = spelled(components);
    let names = telling(components);
    assert(!components[0].contains(47u8));
    assert forall|i: int| 0 <= i < first.len() implies first[i] != SEPARATOR by {
        assert(first.contains(first[i]));
    }
    let next = with_component(path, first);
    assert(is_void(first) == (first.len() == 0 || first == seq![46u8]));
    assert(path.push(SEPARATOR) + first =~= path + seq![47u8] + first);
    if components.len() == 1 {
        lemma_component_whole(first);
        assert(first.take(first.len() as int) =~= first);
        assert(rest =~= seq![]);
        assert(telling(rest) =~= seq![]);
        if !is_void(first) {
            assert(names.skip(1) =~= seq![]);
            assert(added(next, names.skip(1)) == next);
        }
    } else {
        let size = first.len() as int;
        assert(text[size] == SEPARATOR);
        assert forall|i: int| 0 <= i < size implies text[i] != SEPARATOR by {
            assert(text[i] == first[i]);
        }
        lemma_component_stops(text, size);
        assert(text.take(size) =~= first);
        assert(text.skip(size + 1) =~= spelled(rest));
        assert forall|i: int| 0 <= i < rest.len() implies !(#[trigger] rest[i]).contains(47u8) by {
            assert(rest[i] == components[i + 1]);
        }
        lemma_added(next, rest);
        if !is_void(first) {
            assert(names.skip(1) =~= telling(rest));
            assert(names[0] == first);
        }
    }
}

proof fn lemma_added_text(path: Seq<u8>, names: Seq<Seq<u8>>)
    requires
        names.len() > 0,
        forall|i: int|
            0 <= i < names.len() ==> (#[trigger] names[i]).len() > 0 && !names[i].contains(47u8),
    ensures
        added(path, names) == (if path.len() > 0 && path.last() != 47 {
            path + seq![47u8] + spelled(names)
        } else {
            path + spelled(names)
        }),
    decreases names.len(),
{
    let first = names[0];
    let rest = names.skip(1);
    let next = if path.len() > 0 && path.last() != 47 {
        path + seq![47u8] + first
    } else {
        path + first
    };
    assert(names[0].len() > 0 && !names[0].contains(47u8));
    assert(first.contains(first.last()));
    assert(next.last() == first.last());
    if names.len() == 1 {
        assert(rest =~= seq![]);
        assert(added(next, rest) == next);
    } else {
        assert forall|i: int| 0 <= i < rest.len() implies (#[trigger] rest[i]).len() > 0
            && !rest[i].contains(47u8) by {
            assert(rest[i] == names[i + 1]);
        }
        lemma_added_text(next, rest);
        assert(spelled(names) == first + seq![47u8] + spelled(rest));
        assert(next + seq![47u8] + spelled(rest) =~= if path.len() > 0 && path.last() != 47 {
            path + seq![47u8] + (first + seq![47u8] + spelled(rest))
        } else {
            path + (first + seq![47u8] + spelled(rest))
        });
    }
}

proof fn lemma_telling(components: Seq<Seq<u8>>)
    requires
        are_components(components),
    ensures
        forall|i: int|
            0 <= i < telling(components).len() ==> (#[trigger] telling(components)[i]).len() > 0
                && !telling(components)[i].contains(47u8),
    decreases components.len(),
{
    if components.len() > 0 {
        let rest = components.skip(1);
        assert forall|i: int| 0 <= i < rest.len() implies !(#[trigger] rest[i]).contains(47u8) by {
            assert(rest[i] == components[i + 1]);
        }
        lemma_telling(rest);
        assert(!components[0].contains(47u8));
        let names = telling(components);
        assert forall|i: int| 0 <= i < names.len() implies (#[trigger] names[i]).len() > 0
            && !names[i].contains(47u8) by {
            if components[0].len() > 0 && components[0] != seq![46u8] {
                if i > 0 {
                    assert(names[i] == telling(rest)[i - 1]);
                }
            }
        }
    }
}

/// A path from the root is settled to the components that tell something, in their order, with one
/// separator before each: what is empty or a single dot goes, and nothing else does.
pub proof fn settled_path_keeps_what_tells(components: Seq<Seq<u8>>)
    requires
        are_components(components),
        components.len() > 0,
    ensures
        normalized(seq![47u8] + spelled(components)) == seq![47u8] + spelled(telling(components)),
{
    let path = seq![47u8] + spelled(components);
    let root = seq![47u8];
    assert(path.take(1) =~= root);
    assert(path.skip(1) =~= spelled(components));
    lemma_added(root, components);
    lemma_telling(components);
    if telling(components).len() > 0 {
        lemma_added_text(root, telling(components));
    } else {
        assert(root + spelled(telling(components)) =~= root);
    }
}

proof fn lemma_spelled_join(one: Seq<Seq<u8>>, other: Seq<Seq<u8>>)
    requires
        one.len() > 0,
        other.len() > 0,
    ensures
        spelled(one + other) == spelled(one) + seq![47u8] + spelled(other),
    decreases one.len(),
{
    let all = one + other;
    assert(all.skip(1) =~= one.skip(1) + other);
    assert(all[0] == one[0]);
    if one.len() == 1 {
        assert(one.skip(1) + other =~= other);
    } else {
        lemma_spelled_join(one.skip(1), other);
        assert(spelled(all) =~= spelled(one) + seq![47u8] + spelled(other));
    }
}

proof fn lemma_telling_join(one: Seq<Seq<u8>>, other: Seq<Seq<u8>>)
    ensures
        telling(one + other) == telling(one) + telling(other),
    decreases one.len(),
{
    let all = one + other;
    if one.len() == 0 {
        assert(all =~= other);
        assert(telling(one) + telling(other) =~= telling(other));
    } else {
        assert(all.skip(1) =~= one.skip(1) + other);
        lemma_telling_join(one.skip(1), other);
        assert(telling(all) =~= telling(one) + telling(other));
    }
}

/// A relative path is read in its directory: the components of the directory come first, then its own.
/// An absolute path is not changed by any directory.
pub proof fn paths_are_read_in_their_directory(dir: Seq<Seq<u8>>, path: Seq<Seq<u8>>)
    requires
        are_components(dir) && are_components(path),
        dir.len() > 0 && path.len() > 0,
        dir.last().len() > 0,
        path[0].len() > 0,
    ensures
        joined(seq![47u8] + spelled(dir), spelled(path)) == seq![47u8] + spelled(dir + path),
        normalized(joined(seq![47u8] + spelled(dir), spelled(path))) == seq![47u8] + spelled(
            telling(dir) + telling(path),
        ),
        joined(seq![47u8] + spelled(dir), seq![47u8] + spelled(path)) == seq![47u8] + spelled(path),
{
    let base = seq![47u8] + spelled(dir);
    let text = spelled(path);
    lemma_spelled_ends(dir);
    lemma_spelled_join(dir, path);
    lemma_telling_join(dir, path);
    assert(text[0] == path[0][0]);
    assert(!path[0].contains(47u8));
    assert(path[0].contains(path[0][0]));
    assert(base.push(SEPARATOR) + text =~= seq![47u8] + spelled(dir + path));
    let all = dir + path;
    assert forall|i: int| 0 <= i < all.len() implies !(#[trigger] all[i]).contains(47u8) by {
        if i < dir.len() {
            assert(all[i] == dir[i]);
        } else {
            assert(all[i] == path[i - dir.len()]);
        }
    }
    settled_path_keeps_what_tells(all);
}

proof fn lemma_spelled_ends(components: Seq<Seq<u8>>)
    requires
        are_components(components),
        components.len() > 0,
        components.last().len() > 0,
    ensures
        spelled(components).len() > 0,
        spelled(components).last() != 47,
    decreases components.len(),
{
    if components.len() == 1 {
        let last = components[0];
        assert(!components[0].contains(47u8));
        assert(last.contains(last.last()));
    } else {
        let rest = components.skip(1);
        assert forall|i: int| 0 <= i < rest.len() implies !(#[trigger] rest[i]).contains(47u8) by {
            assert(rest[i] == components[i + 1]);
        }
        assert(rest.last() == components.last());
        lemma_spelled_ends(rest);
    }
}

proof fn lemma_last_start_of(dir: Seq<u8>, name: Seq<u8>, from: int)
    requires
        !name.contains(47u8),
        0 <= from <= dir.len(),
        dir.len() > 0,
        dir.last() == 47,
    ensures
        last_start(dir + name, from) == dir.len(),
    decreases name.len(),
{
    let whole = dir + name;
    if name.len() == 0 {
        assert(whole =~= dir);
        if dir.len() == from {
        }
    } else {
        assert(name.contains(name.last()));
        assert(whole.last() == name.last());
        assert(whole.drop_last() =~= dir + name.drop_last());
        assert forall|x: u8| name.drop_last().contains(x) implies name.contains(x) by {
            let i = choose|i: int| 0 <= i < name.drop_last().len() && name.drop_last()[i] == x;
            assert(name[i] == x);
        }
        lemma_last_start_of(dir, name.drop_last(), from);
    }
}

/// The directory of a file in a directory is that directory.
pub proof fn files_lie_in_their_directory(dir: Seq<u8>, name: Seq<u8>)
    requires
        dir.len() > 0 && dir[0] == 47,
        dir.len() > 1 ==> dir.last() != 47 && !(dir.last() == 46 && dir[dir.len() - 2] == 47),
        name.len() > 0 && name != seq![46u8] && !name.contains(47u8),
    ensures
        parent_of(joined(dir, name)) == Some(dir),
{
    assert(name.contains(name[0]));
    let path = joined(dir, name);
    if dir.len() == 1 {
        assert(dir =~= seq![47u8]);
        lemma_last_start_of(dir, name, 1);
        assert(path.skip(1) =~= name);
        assert(trim_end(path, 1) == path);
        assert(drop_last_component(path, 1) =~= dir);
    } else {
        let head = dir.push(SEPARATOR);
        lemma_last_start_of(head, name, 1);
        assert(path == head + name);
        assert(path[0] == 47);
        assert(path.skip(head.len() as int) =~= name);
        assert(trim_end(path, 1) == path);
        assert(drop_last_component(path, 1) =~= dir);
        let start = last_start(dir, 1);
        lemma_last_start(dir, 1);
        lemma_last_is_telling(dir);
        assert(trim_end(dir, 1) == dir);
    }
}

proof fn lemma_last_is_telling(dir: Seq<u8>)
    requires
        dir.len() > 1,
        dir[0] == 47,
        dir.last() != 47,
        !(dir.last() == 46 && dir[dir.len() - 2] == 47),
    ensures
        !is_void(dir.skip(last_start(dir, 1))),
{
    lemma_last_start(dir, 1);
    let start = last_start(dir, 1);
    let last = dir.skip(start);
    lemma_starts_before_the_end(dir, 1);
    if last == seq![46u8] {
        assert(last.last() == dir.last());
        assert(start == dir.len() - 1);
        if start > 1 {
            assert(dir[start - 1] == 47);
        } else {
            assert(dir[0] == 47);
        }
    }
}

proof fn lemma_starts_before_the_end(path: Seq<u8>, from: int)
    requires
        0 <= from < path.len(),
        path.last() != 47,
    ensures
        last_start(path, from) < path.len(),
{
    lemma_last_start(path.drop_last(), from);
}

} // verus!
