//! The two halves of a signing bundle.

use vstd::prelude::*;
use crate::ranked::Ranked;
use crate::text::same;

verus! {

/// Who a signing asset is for: every developer, or those who ship releases.
#[derive(Debug, Clone, Copy, PartialEq, Eq, Structural)]
pub enum Scope {
    Developer,
    Release,
}

impl Ranked for Scope {
    open spec fn rank_of(self) -> nat {
        match self {
            Scope::Developer => 0,
            Scope::Release => 1,
        }
    }

    proof fn rank_injective(a: Self, b: Self) {
    }

    fn rank(self) -> (r: u8) {
        match self {
            Scope::Developer => 0,
            Scope::Release => 1,
        }
    }
}

/// The name of a scope, in messages and as a directory of the bundle.
pub open spec fn scope_name(scope: Scope) -> Seq<char> {
    match scope {
        Scope::Developer => "developer"@,
        Scope::Release => "release"@,
    }
}

impl Scope {
    /// The directory of the scope in a bundle.
    pub fn bundle_segment(self) -> (segment: &'static str)
        ensures
            segment@ == scope_name(self),
    {
        match self {
            Scope::Developer => "developer",
            Scope::Release => "release",
        }
    }

    /// The scope of a bundle directory.
    pub fn from_bundle_segment(segment: &str) -> (scope: Option<Scope>)
        ensures
            match scope {
                Some(found) => scope_name(found) == segment@,
                None => segment@ != "developer"@ && segment@ != "release"@,
            },
    {
        if same(segment, "developer") {
            Some(Scope::Developer)
        } else if same(segment, "release") {
            Some(Scope::Release)
        } else {
            None
        }
    }
}

/// The two scopes have different names.
pub proof fn lemma_scope_names_differ(a: Scope, b: Scope)
    requires
        scope_name(a) == scope_name(b),
    ensures
        a == b,
{
    reveal_strlit("developer");
    reveal_strlit("release");
    assert("developer"@.len() != "release"@.len());
}

} // verus!
