//! Comparisons: named series of reference times, one time per segment, that
//! an attempt in progress is measured against.
//!
//! The built-in comparisons are derived from a run's stored times and its
//! history. A run may add custom comparisons, which store their times.

use vstd::prelude::*;

pub mod custom;
pub mod generate;
pub mod selection;

pub use custom::{CustomComparison, CustomComparisonView};
pub use generate::{comparison_times, generate};
pub use selection::{
    comparison_names, comparison_position, has_comparison, next_comparison_name,
    previous_comparison_name,
};

verus! {

/// The number of built-in comparisons.
pub const BUILTIN_COUNT: usize = 5;

/// A comparison that every run has.
#[derive(Clone, Copy, Debug, PartialEq, Eq, Structural, Hash)]
pub enum BuiltinComparison {
    /// The split times of the best completed attempt.
    PersonalBest,
    /// The running total of the best time ever taken for each segment.
    BestSegments,
    /// The running total of the mean time taken for each segment.
    AverageSegments,
    /// The running total of the median time taken for each segment.
    MedianSegments,
    /// The running total of the longest time ever taken for each segment.
    WorstSegments,
}

impl BuiltinComparison {
    /// The name by which the comparison is selected.
    pub open spec fn spec_name(self) -> Seq<char> {
        match self {
            BuiltinComparison::PersonalBest => "Personal Best"@,
            BuiltinComparison::BestSegments => "Best Segments"@,
            BuiltinComparison::AverageSegments => "Average Segments"@,
            BuiltinComparison::MedianSegments => "Median Segments"@,
            BuiltinComparison::WorstSegments => "Worst Segments"@,
        }
    }

    /// The place of the comparison in the order of declaration.
    pub open spec fn spec_position(self) -> int {
        match self {
            BuiltinComparison::PersonalBest => 0,
            BuiltinComparison::BestSegments => 1,
            BuiltinComparison::AverageSegments => 2,
            BuiltinComparison::MedianSegments => 3,
            BuiltinComparison::WorstSegments => 4,
        }
    }

    /// The built-in comparison at place `i`. Outside the range it is the
    /// first one.
    pub open spec fn spec_at(i: int) -> BuiltinComparison {
        if i == 1 {
            BuiltinComparison::BestSegments
        } else if i == 2 {
            BuiltinComparison::AverageSegments
        } else if i == 3 {
            BuiltinComparison::MedianSegments
        } else if i == 4 {
            BuiltinComparison::WorstSegments
        } else {
            BuiltinComparison::PersonalBest
        }
    }

    /// The name by which the comparison is selected.
    pub fn name(self) -> (r: String)
        ensures
            r@ == self.spec_name(),
    {
        match self {
            BuiltinComparison::PersonalBest => "Personal Best".to_owned(),
            BuiltinComparison::BestSegments => "Best Segments".to_owned(),
            BuiltinComparison::AverageSegments => "Average Segments".to_owned(),
            BuiltinComparison::MedianSegments => "Median Segments".to_owned(),
            BuiltinComparison::WorstSegments => "Worst Segments".to_owned(),
        }
    }

    /// The place of the comparison in the order of declaration.
    pub fn position(self) -> (r: usize)
        ensures
            r == self.spec_position(),
            r < BUILTIN_COUNT,
    {
        match self {
            BuiltinComparison::PersonalBest => 0,
            BuiltinComparison::BestSegments => 1,
            BuiltinComparison::AverageSegments => 2,
            BuiltinComparison::MedianSegments => 3,
            BuiltinComparison::WorstSegments => 4,
        }
    }

    /// The built-in comparison at place `i`, if there is one.
    pub fn at(i: usize) -> (r: Option<BuiltinComparison>)
        ensures
            r == if i < BUILTIN_COUNT {
                Some(BuiltinComparison::spec_at(i as int))
            } else {
                None
            },
    {
        if i == 0 {
            Some(BuiltinComparison::PersonalBest)
        } else if i == 1 {
            Some(BuiltinComparison::BestSegments)
        } else if i == 2 {
            Some(BuiltinComparison::AverageSegments)
        } else if i == 3 {
            Some(BuiltinComparison::MedianSegments)
        } else if i == 4 {
            Some(BuiltinComparison::WorstSegments)
        } else {
            None
        }
    }

    /// The built-in comparison called `name`, if there is one.
    pub fn from_name(name: &String) -> (r: Option<BuiltinComparison>)
        ensures
            r == spec_builtin_named(name@),
    {
        proof {
            lemma_builtin_names_differ();
        }
        if *name == BuiltinComparison::PersonalBest.name() {
            Some(BuiltinComparison::PersonalBest)
        } else if *name == BuiltinComparison::BestSegments.name() {
            Some(BuiltinComparison::BestSegments)
        } else if *name == BuiltinComparison::AverageSegments.name() {
            Some(BuiltinComparison::AverageSegments)
        } else if *name == BuiltinComparison::MedianSegments.name() {
            Some(BuiltinComparison::MedianSegments)
        } else if *name == BuiltinComparison::WorstSegments.name() {
            Some(BuiltinComparison::WorstSegments)
        } else {
            None
        }
    }
}

/// The names of the built-in comparisons, in the order of declaration.
pub open spec fn builtin_names() -> Seq<Seq<char>> {
    Seq::new(BUILTIN_COUNT as nat, |i: int| BuiltinComparison::spec_at(i).spec_name())
}

/// Whether `name` is the name of a built-in comparison.
pub open spec fn is_builtin_name(name: Seq<char>) -> bool {
    exists|b: BuiltinComparison| b.spec_name() == name
}

/// The built-in comparison called `name`, if there is one.
pub open spec fn spec_builtin_named(name: Seq<char>) -> Option<BuiltinComparison> {
    if is_builtin_name(name) {
        Some(choose|b: BuiltinComparison| b.spec_name() == name)
    } else {
        None
    }
}

/// No two built-in comparisons share a name, so a name selects at most one.
pub proof fn lemma_builtin_names_differ()
    ensures
        forall|a: BuiltinComparison, b: BuiltinComparison|
            a.spec_name() == b.spec_name() ==> a == b,
        forall|b: BuiltinComparison| #[trigger] spec_builtin_named(b.spec_name()) == Some(b),
        forall|b: BuiltinComparison| #[trigger] is_builtin_name(b.spec_name()),
        forall|b: BuiltinComparison| BuiltinComparison::spec_at(#[trigger] b.spec_position()) == b,
{
    reveal_strlit("Personal Best");
    reveal_strlit("Best Segments");
    reveal_strlit("Average Segments");
    reveal_strlit("Median Segments");
    reveal_strlit("Worst Segments");
    assert("Personal Best"@[0] == 'P');
    assert("Best Segments"@[0] == 'B');
    assert("Personal Best"@.len() == 13);
    assert("Best Segments"@.len() == 13);
    assert("Average Segments"@.len() == 16);
    assert("Median Segments"@.len() == 15);
    assert("Worst Segments"@.len() == 14);
    assert forall|a: BuiltinComparison, b: BuiltinComparison|
        a.spec_name() == b.spec_name() implies a == b by {
        if a != b {
            assert(a.spec_name().len() != b.spec_name().len() || a.spec_name()[0]
                != b.spec_name()[0]);
        }
    }
}

} // verus!
