//! The results of a build, summed up.

use vstd::prelude::*;
use crate::orchestrator::{BuildResult, Outcome};

verus! {

/// The packages of a plan by how their build ended.
#[derive(Debug, PartialEq, Eq)]
pub struct Summary {
    /// The packages that were built and installed, in the order of the plan.
    pub succeeded: Vec<usize>,
    /// The packages of which a step failed, in the order of the plan.
    pub failed: Vec<usize>,
    /// The packages that were skipped, in the order of the plan.
    pub skipped: Vec<usize>,
}

/// The three ways in which a build ends.
#[derive(Debug, Clone, Copy, PartialEq, Eq, Structural)]
pub enum Ending {
    /// Built and installed.
    Built,
    /// A step failed.
    Failed,
    /// Not built.
    Skipped,
}

impl Outcome {
    /// The way in which the build ended, without the reason.
    pub open spec fn ending(self) -> Ending {
        match self {
            Outcome::Built => Ending::Built,
            Outcome::Failed(_) => Ending::Failed,
            Outcome::Skipped => Ending::Skipped,
        }
    }

    /// The way in which the build ended, without the reason.
    pub fn kind(self) -> (ending: Ending)
        ensures
            ending == self.ending(),
    {
        match self {
            Outcome::Built => Ending::Built,
            Outcome::Failed(_) => Ending::Failed,
            Outcome::Skipped => Ending::Skipped,
        }
    }
}

/// The packages whose build ended in the given way, in the order of the results.
pub open spec fn nodes_ending(results: Seq<BuildResult>, ending: Ending) -> Seq<usize>
    decreases results.len(),
{
    if results.len() == 0 {
        Seq::empty()
    } else if results.last().outcome.ending() == ending {
        nodes_ending(results.drop_last(), ending).push(results.last().node)
    } else {
        nodes_ending(results.drop_last(), ending)
    }
}

/// Every package was built.
pub open spec fn all_built(results: Seq<BuildResult>) -> bool {
    forall|i: int| 0 <= i < results.len() ==> (#[trigger] results[i]).outcome == Outcome::Built
}

/// Every result is counted once in a summary: the three lists together are as long as the results.
pub proof fn lemma_summary_complete(results: Seq<BuildResult>)
    ensures
        nodes_ending(results, Ending::Built).len() + nodes_ending(results, Ending::Failed).len()
            + nodes_ending(results, Ending::Skipped).len() == results.len(),
        all_built(results) <==> nodes_ending(results, Ending::Failed).len() == 0 && nodes_ending(
            results,
            Ending::Skipped,
        ).len() == 0,
    decreases results.len(),
{
    if results.len() > 0 {
        let front = results.drop_last();
        lemma_summary_complete(front);
        if all_built(results) {
            assert forall|i: int| 0 <= i < front.len() implies (#[trigger] front[i]).outcome
                == Outcome::Built by {
                assert(front[i] == results[i]);
            }
        }
        if all_built(front) && results.last().outcome == Outcome::Built {
            assert forall|i: int| 0 <= i < results.len() implies (#[trigger] results[i]).outcome
                == Outcome::Built by {
                if i < front.len() {
                    assert(front[i] == results[i]);
                }
            }
        }
        if !(results.last().outcome == Outcome::Built) {
            assert(results[results.len() - 1].outcome != Outcome::Built);
        }
    }
}

/// The packages whose build ended in the given way, in the order of the results.
pub fn packages_ending(results: &Vec<BuildResult>, ending: Ending) -> (nodes: Vec<usize>)
    ensures
        nodes@ == nodes_ending(results@, ending),
{
    let mut nodes: Vec<usize> = Vec::new();
    let mut i: usize = 0;
    assert(results@.subrange(0, 0) =~= Seq::empty());
    while i < results.len()
        invariant
            i <= results.len(),
            nodes@ == nodes_ending(results@.subrange(0, i as int), ending),
        decreases results.len() - i,
    {
        assert(results@.subrange(0, i + 1).drop_last() =~= results@.subrange(0, i as int));
        if results[i].outcome.kind() == ending {
            nodes.push(results[i].node);
        }
        i += 1;
    }
    assert(results@.subrange(0, i as int) =~= results@);
    nodes
}

/// The summary that is shown when the build of a plan has ended, also when
/// part of it failed.
pub fn summarize(results: &Vec<BuildResult>) -> (summary: Summary)
    ensures
        summary.succeeded@ == nodes_ending(results@, Ending::Built),
        summary.failed@ == nodes_ending(results@, Ending::Failed),
        summary.skipped@ == nodes_ending(results@, Ending::Skipped),
{
    Summary {
        succeeded: packages_ending(results, Ending::Built),
        failed: packages_ending(results, Ending::Failed),
        skipped: packages_ending(results, Ending::Skipped),
    }
}

/// The exit code of the process: 0 when every package was built, 1 when one
/// failed or was skipped.
pub fn exit_code(results: &Vec<BuildResult>) -> (code: u8)
    ensures
        code == if all_built(results@) {
            0u8
        } else {
            1u8
        },
{
    let mut i: usize = 0;
    while i < results.len()
        invariant
            i <= results.len(),
            forall|j: int| 0 <= j < i ==> (#[trigger] results@[j]).outcome == Outcome::Built,
        decreases results.len() - i,
    {
        if results[i].outcome != Outcome::Built {
            return 1;
        }
        i += 1;
    }
    0
}

} // verus!
