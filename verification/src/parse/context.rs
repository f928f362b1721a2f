//! The contexts that directives stand in.
use vstd::prelude::*;

use crate::text::str_eq;

verus! {

/// Names a context.
#[derive(Debug, Clone, Copy, Hash)]
pub struct ContextKey(pub &'static str);

impl PartialEq for ContextKey {
    fn eq(&self, other: &Self) -> (equal: bool) {
        str_eq(self.0, other.0)
    }
}

impl Eq for ContextKey {

}

impl vstd::std_specs::cmp::PartialEqSpecImpl for ContextKey {
    open spec fn obeys_eq_spec() -> bool {
        true
    }

    open spec fn eq_spec(&self, other: &Self) -> bool {
        self.text() == other.text()
    }
}

impl ContextKey {
    /// The spelling.
    pub open spec fn text(self) -> Seq<char> {
        self.0@
    }

    /// The spelling.
    pub fn to_text(&self) -> (text: String)
        ensures
            text@ == self.text(),
    {
        self.0.to_owned()
    }

    /// Whether two contexts are the same.
    pub fn is(self, other: ContextKey) -> (same: bool)
        ensures
            same == (self.text() == other.text()),
    {
        str_eq(self.0, other.0)
    }
}

/// The name of the context of a whole document.
pub const ROOT: &'static str = "gateway.root";

/// The name of the context of a `pishoo` block.
pub const PISHOO: &'static str = "gateway.pishoo";

/// The name of the context of a `server` block.
pub const SERVER: &'static str = "gateway.server";

/// The name of the context of a `location` block.
pub const LOCATION: &'static str = "gateway.location";

/// The name of the context of a `proxy` block.
pub const PROXY: &'static str = "gateway.proxy";

/// The contexts are all different.
pub proof fn contexts_differ()
    ensures
        ROOT@ != PISHOO@,
        ROOT@ != SERVER@,
        ROOT@ != LOCATION@,
        ROOT@ != PROXY@,
        PISHOO@ != SERVER@,
        PISHOO@ != LOCATION@,
        PISHOO@ != PROXY@,
        SERVER@ != LOCATION@,
        SERVER@ != PROXY@,
        LOCATION@ != PROXY@,
{
    reveal_strlit("gateway.root");
    reveal_strlit("gateway.pishoo");
    reveal_strlit("gateway.server");
    reveal_strlit("gateway.location");
    reveal_strlit("gateway.proxy");
    assert(ROOT@.len() == 12);
    assert(PISHOO@.len() == 14);
    assert(SERVER@.len() == 14);
    assert(LOCATION@.len() == 16);
    assert(PROXY@.len() == 13);
    assert(PISHOO@[8] == 'p');
    assert(SERVER@[8] == 's');
}

} // verus!
