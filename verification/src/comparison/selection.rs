//! Selecting a comparison by name and stepping through the comparisons of a
//! run: the built-in ones in the order of their declaration, then the custom
//! ones in the order in which they were added, and round again.

use crate::comparison::{
    builtin_names, lemma_builtin_names_differ, BuiltinComparison, BUILTIN_COUNT,
};
use crate::run::{views, Run, RunView};
use vstd::prelude::*;

verus! {

/// The names of all comparisons of a run, in the order in which they are
/// stepped through.
pub open spec fn comparison_names(run: RunView) -> Seq<Seq<char>> {
    builtin_names() + Seq::new(
        run.custom_comparisons.len(),
        |i: int| run.custom_comparisons[i].name,
    )
}

/// Whether the run has a comparison called `name`.
pub open spec fn has_comparison(run: RunView, name: Seq<char>) -> bool {
    comparison_names(run).contains(name)
}

/// The place of the comparison called `name`. A name that the run does not
/// have stands for the first comparison, the personal best.
pub open spec fn comparison_position(run: RunView, name: Seq<char>) -> int {
    if has_comparison(run, name) {
        comparison_names(run).index_of(name)
    } else {
        0
    }
}

/// The name of the comparison that follows the one called `name`. The first
/// one follows the last.
pub open spec fn next_comparison_name(run: RunView, name: Seq<char>) -> Seq<char> {
    let names = comparison_names(run);
    let position = comparison_position(run, name);
    if position + 1 < names.len() {
        names[position + 1]
    } else {
        names[0]
    }
}

/// The name of the comparison that comes before the one called `name`. The
/// last one comes before the first.
pub open spec fn previous_comparison_name(run: RunView, name: Seq<char>) -> Seq<char> {
    let names = comparison_names(run);
    let position = comparison_position(run, name);
    if position == 0 {
        names[names.len() - 1]
    } else {
        names[position - 1]
    }
}

/// In a well-formed run every comparison has a name of its own, so the place
/// of a comparison is found again from its name.
pub proof fn lemma_position_of_name(run: RunView, i: int)
    requires
        run.wf(),
        0 <= i < comparison_names(run).len(),
    ensures
        has_comparison(run, comparison_names(run)[i]),
        comparison_position(run, comparison_names(run)[i]) == i,
{
    lemma_builtin_names_differ();
    let names = comparison_names(run);
    let name = names[i];
    assert(names.contains(name));
    let found = names.index_of(name);
    assert(0 <= found < names.len() && names[found] == name);
    assert forall|a: int, b: int| 0 <= a < b < names.len() implies names[a] != names[b] by {
        if b < BUILTIN_COUNT {
            assert(names[a] == BuiltinComparison::spec_at(a).spec_name());
            assert(names[b] == BuiltinComparison::spec_at(b).spec_name());
            assert(BuiltinComparison::spec_at(a) != BuiltinComparison::spec_at(b));
        } else if a < BUILTIN_COUNT {
            assert(names[a] == BuiltinComparison::spec_at(a).spec_name());
            assert(names[b] == run.custom_comparisons[b - BUILTIN_COUNT].name);
        } else {
            assert(names[a] == run.custom_comparisons[a - BUILTIN_COUNT].name);
            assert(names[b] == run.custom_comparisons[b - BUILTIN_COUNT].name);
        }
    }
    if found < i {
        assert(names[found] != names[i]);
    } else if i < found {
        assert(names[i] != names[found]);
    }
}

/// The place of a comparison always lies among the comparisons of the run.
pub proof fn lemma_position_in_range(run: RunView, name: Seq<char>)
    ensures
        0 <= comparison_position(run, name) < comparison_names(run).len(),
        has_comparison(run, name) ==> comparison_names(run)[comparison_position(run, name)] == name,
{
}

/// Stepping on and stepping back lead to names that the run has.
pub proof fn lemma_steps_stay_in_run(run: RunView, name: Seq<char>)
    ensures
        has_comparison(run, next_comparison_name(run, name)),
        has_comparison(run, previous_comparison_name(run, name)),
{
    let names = comparison_names(run);
    let position = comparison_position(run, name);
    lemma_position_in_range(run, name);
    if position + 1 < names.len() {
        assert(names[position + 1] == next_comparison_name(run, name));
    } else {
        assert(names[0] == next_comparison_name(run, name));
    }
    if position == 0 {
        assert(names[names.len() - 1] == previous_comparison_name(run, name));
    } else {
        assert(names[position - 1] == previous_comparison_name(run, name));
    }
}

/// Where a name stands among the comparisons of a run.
#[derive(Clone, Copy, Debug, PartialEq, Eq)]
pub enum Selection {
    /// The name of a built-in comparison.
    Builtin(BuiltinComparison),
    /// The name of the custom comparison at this place among the custom
    /// ones.
    Custom(usize),
    /// A name that the run does not have.
    Unknown,
}

impl Selection {
    /// Whether `self` says where `name` stands in `run`.
    pub open spec fn selects(self, run: RunView, name: Seq<char>) -> bool {
        match self {
            Selection::Builtin(b) => b.spec_name() == name,
            Selection::Custom(i) => i < run.custom_comparisons.len() && run.custom_comparisons[i as int].name
                == name,
            Selection::Unknown => !has_comparison(run, name),
        }
    }

    /// The place among all comparisons that `self` stands for.
    pub open spec fn position(self) -> int {
        match self {
            Selection::Builtin(b) => b.spec_position(),
            Selection::Custom(i) => BUILTIN_COUNT + i,
            Selection::Unknown => 0,
        }
    }
}

/// Finds where `name` stands among the comparisons of `run`.
pub fn select(run: &Run, name: &String) -> (r: Selection)
    requires
        run@.wf(),
    ensures
        r.selects(run@, name@),
        r.position() == comparison_position(run@, name@),
{
    let ghost names = comparison_names(run@);
    proof {
        lemma_builtin_names_differ();
    }
    match BuiltinComparison::from_name(name) {
        Some(b) => {
            proof {
                assert(names[b.spec_position()] == name@);
                lemma_position_of_name(run@, b.spec_position());
            }
            Selection::Builtin(b)
        },
        None => match run.find_custom(name) {
            Some(i) => {
                proof {
                    assert(names[BUILTIN_COUNT + i] == name@);
                    lemma_position_of_name(run@, BUILTIN_COUNT + i);
                }
                Selection::Custom(i)
            },
            None => {
                proof {
                    if has_comparison(run@, name@) {
                        let k = names.index_of(name@);
                        if k < BUILTIN_COUNT {
                            assert(BuiltinComparison::spec_at(k).spec_name() == name@);
                        } else {
                            assert(run@.custom_comparisons[k - BUILTIN_COUNT].name == name@);
                        }
                    }
                }
                Selection::Unknown
            },
        },
    }
}

/// The name of the first comparison of every run.
fn first_name() -> (r: String)
    ensures
        r@ == BuiltinComparison::PersonalBest.spec_name(),
{
    BuiltinComparison::PersonalBest.name()
}

/// The name of the comparison that follows the one called `name`.
pub fn next_name(run: &Run, name: &String) -> (r: String)
    requires
        run@.wf(),
    ensures
        r@ == next_comparison_name(run@, name@),
{
    let customs = run.custom_comparisons();
    let ghost names = comparison_names(run@);
    match select(run, name) {
        Selection::Builtin(b) => {
            match BuiltinComparison::at(b.position() + 1) {
                Some(following) => {
                    assert(names[b.spec_position() + 1] == following.spec_name());
                    following.name()
                },
                None => {
                    if customs.len() > 0 {
                        assert(names[BUILTIN_COUNT as int] == views(customs@)[0].name);
                        customs[0].name.clone()
                    } else {
                        assert(names[0] == BuiltinComparison::PersonalBest.spec_name());
                        first_name()
                    }
                },
            }
        },
        Selection::Custom(i) => {
            let count = customs.len();
            assert(i < views(customs@).len());
            if i + 1 < count {
                assert(names[BUILTIN_COUNT + i + 1] == views(customs@)[i + 1].name);
                customs[i + 1].name.clone()
            } else {
                assert(names[0] == BuiltinComparison::PersonalBest.spec_name());
                first_name()
            }
        },
        Selection::Unknown => {
            assert(names[1] == BuiltinComparison::BestSegments.spec_name());
            BuiltinComparison::BestSegments.name()
        },
    }
}

/// The name of the last comparison of the run.
fn last_name(run: &Run) -> (r: String)
    ensures
        r@ == comparison_names(run@)[comparison_names(run@).len() - 1],
{
    let customs = run.custom_comparisons();
    let ghost names = comparison_names(run@);
    if customs.len() > 0 {
        assert(names[names.len() - 1] == views(customs@)[customs@.len() - 1].name);
        customs[customs.len() - 1].name.clone()
    } else {
        assert(names[names.len() - 1] == BuiltinComparison::WorstSegments.spec_name());
        BuiltinComparison::WorstSegments.name()
    }
}

/// The name of the comparison that comes before the one called `name`.
pub fn previous_name(run: &Run, name: &String) -> (r: String)
    requires
        run@.wf(),
    ensures
        r@ == previous_comparison_name(run@, name@),
{
    let customs = run.custom_comparisons();
    let ghost names = comparison_names(run@);
    match select(run, name) {
        Selection::Builtin(b) => {
            let position = b.position();
            if position == 0 {
                last_name(run)
            } else {
                match BuiltinComparison::at(position - 1) {
                    Some(preceding) => {
                        assert(names[position - 1] == preceding.spec_name());
                        preceding.name()
                    },
                    None => first_name(),
                }
            }
        },
        Selection::Custom(i) => {
            if i == 0 {
                assert(names[BUILTIN_COUNT - 1] == BuiltinComparison::WorstSegments.spec_name());
                BuiltinComparison::WorstSegments.name()
            } else {
                assert(names[BUILTIN_COUNT + i - 1] == views(customs@)[i - 1].name);
                customs[i - 1].name.clone()
            }
        },
        Selection::Unknown => last_name(run),
    }
}

/// Whether the run has a comparison called `name`.
pub fn is_known(run: &Run, name: &String) -> (r: bool)
    requires
        run@.wf(),
    ensures
        r == has_comparison(run@, name@),
{
    let ghost names = comparison_names(run@);
    match select(run, name) {
        Selection::Builtin(b) => {
            proof {
                lemma_builtin_names_differ();
                assert(names[b.spec_position()] == name@);
            }
            true
        },
        Selection::Custom(i) => {
            assert(names[BUILTIN_COUNT + i] == name@);
            true
        },
        Selection::Unknown => false,
    }
}

} // verus!
