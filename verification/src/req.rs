//! Comparators and constraints: a dependent's declared requirement.
//!
//! A constraint is a non-empty conjunction of atomic comparators, each an
//! operator plus a possibly partial version (major required, minor and patch
//! optional). The textual form the constraint was written in is carried along
//! so that diagnostics can name it verbatim.

use vstd::prelude::*;

use crate::version::{PreIdent, PreIdentModel};

verus! {

/// The closed set of comparator operators. `Unknown` stands for any operator
/// outside this set, kept so that an unrecognised operator in the comparator
/// grammar is rejected rather than misread.
#[derive(PartialEq, Eq, Structural, Clone, Copy, Debug)]
pub enum Op {
    Exact,
    Greater,
    GreaterEq,
    Less,
    LessEq,
    Tilde,
    Caret,
    Wildcard,
    Unknown,
}

/// One atomic comparator: an operator applied to a possibly partial version.
#[derive(Debug)]
pub struct Comparator {
    pub op: Op,
    pub major: u64,
    pub minor: Option<u64>,
    pub patch: Option<u64>,
    pub pre: Vec<PreIdent>,
}

/// Mathematical model of a comparator.
#[verifier::ext_equal]
pub struct ComparatorModel {
    pub op: Op,
    pub major: int,
    pub minor: Option<int>,
    pub patch: Option<int>,
    pub pre: Seq<PreIdentModel>,
}

impl View for Comparator {
    type V = ComparatorModel;

    open spec fn view(&self) -> ComparatorModel {
        ComparatorModel {
            op: self.op,
            major: self.major as int,
            minor: match self.minor {
                Some(m) => Some(m as int),
                None => None,
            },
            patch: match self.patch {
                Some(p) => Some(p as int),
                None => None,
            },
            pre: self.pre@.map_values(|p: PreIdent| p@),
        }
    }
}

/// A dependent's full requirement: one or more comparators, conjoined, plus
/// the original textual form for diagnostics.
#[derive(Debug)]
pub struct Constraint {
    pub comparators: Vec<Comparator>,
    pub text: String,
}

/// Mathematical model of a constraint.
#[verifier::ext_equal]
pub struct ConstraintModel {
    pub comparators: Seq<ComparatorModel>,
    pub text: Seq<char>,
}

impl View for Constraint {
    type V = ConstraintModel;

    open spec fn view(&self) -> ConstraintModel {
        ConstraintModel {
            comparators: self.comparators@.map_values(|c: Comparator| c@),
            text: self.text@,
        }
    }
}

impl Clone for Comparator {
    fn clone(&self) -> (res: Self)
        ensures
            res@ == self@,
    {
        let pre = self.pre.clone();
        proof {
            assert(pre@.map_values(|p: PreIdent| p@) =~= self.pre@.map_values(
                |p: PreIdent| p@,
            )) by {
                assert forall|i: int| 0 <= i < pre@.len() implies pre@[i]@ == self.pre@[i]@ by {
                    assert(cloned(self.pre@[i], pre@[i]));
                }
            }
            assert(Comparator { pre, ..*self }@ =~= self@);
        }
        Comparator {
            op: self.op,
            major: self.major,
            minor: self.minor,
            patch: self.patch,
            pre,
        }
    }
}

impl Clone for Constraint {
    fn clone(&self) -> (res: Self)
        ensures
            res@ == self@,
    {
        let comparators = self.comparators.clone();
        let text = self.text.clone();
        proof {
            assert(comparators@.map_values(|c: Comparator| c@) =~= self.comparators@.map_values(
                |c: Comparator| c@,
            )) by {
                assert forall|i: int| 0 <= i < comparators@.len() implies comparators@[i]@
                    == self.comparators@[i]@ by {
                    assert(cloned(self.comparators@[i], comparators@[i]));
                }
            }
            assert(Constraint { comparators, text }@ =~= self@);
        }
        Constraint { comparators, text }
    }
}

} // verus!
