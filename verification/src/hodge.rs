//! The branches of the Hodge decomposition of a field.

use vstd::prelude::*;

verus! {

/// A branch of the Hodge decomposition.
#[derive(Debug, Clone, Copy, PartialEq, Eq, PartialOrd, Ord, Structural)]
pub enum HodgeBranchKind {
    Exact,
    Coexact,
    Harmonic,
}

impl HodgeBranchKind {
    /// The name that stands for the branch in tables and labels.
    pub open spec fn name(self) -> Seq<char> {
        match self {
            HodgeBranchKind::Exact => "exact"@,
            HodgeBranchKind::Coexact => "coexact"@,
            HodgeBranchKind::Harmonic => "harmonic"@,
        }
    }

    /// The name as it is reported.
    pub fn as_str(self) -> (text: &'static str)
        ensures
            text@ == self.name(),
    {
        match self {
            HodgeBranchKind::Exact => "exact",
            HodgeBranchKind::Coexact => "coexact",
            HodgeBranchKind::Harmonic => "harmonic",
        }
    }

    /// The branches in the order in which their parts of a field are laid out.
    pub open spec fn in_order() -> Seq<HodgeBranchKind> {
        seq![HodgeBranchKind::Exact, HodgeBranchKind::Coexact, HodgeBranchKind::Harmonic]
    }

    /// No two branches have the same name.
    pub proof fn lemma_names_distinct(left: HodgeBranchKind, right: HodgeBranchKind)
        requires
            left.name() == right.name(),
        ensures
            left == right,
    {
        reveal_strlit("exact");
        reveal_strlit("coexact");
        reveal_strlit("harmonic");
        assert("exact"@.len() == 5);
        assert("coexact"@.len() == 7);
        assert("harmonic"@.len() == 8);
    }
}

/// Tests whether a branch is in a list.
pub fn has_branch(branches: &Vec<HodgeBranchKind>, branch: HodgeBranchKind) -> (found: bool)
    ensures
        found == branches@.contains(branch),
{
    let mut index: usize = 0;
    while index < branches.len()
        invariant
            index <= branches.len(),
            forall|i: int| 0 <= i < index ==> branches@[i] != branch,
        decreases branches.len() - index,
    {
        if branches[index] == branch {
            assert(branches@[index as int] == branch);
            return true;
        }
        index = index + 1;
    }
    false
}

} // verus!
