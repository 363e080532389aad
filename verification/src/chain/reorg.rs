//! Bounded common-ancestor discovery against durable canonical history.

use vstd::prelude::*;

use crate::domain::BlockRef;

use super::ChainError;

verus! {

/// Search for the highest block that durable history and the provider share. Heights are examined
/// from the highest common one downward.
#[derive(Clone, Copy, Debug, PartialEq, Eq, Structural)]
pub struct AncestorSearch {
    /// Highest height that both histories reach.
    pub highest: u64,
    /// Number of heights that may be examined.
    pub attempts: u64,
    /// Number of heights examined so far.
    pub examined: u64,
}

/// What a search asks for or has found.
#[derive(Debug)]
pub enum AncestorStep {
    /// The block at this height is to be looked up.
    Examine(u64),
    /// The common ancestor.
    Found(BlockRef),
    /// No common ancestor within the bound.
    Failed(ChainError),
}

/// Number of heights that may be examined: one more than the rewind bound, and no more than there
/// are.
pub open spec fn search_attempts(highest: u64, maximum_rewind: u64) -> u64 {
    if maximum_rewind < highest {
        (maximum_rewind + 1) as u64
    } else if highest == u64::MAX {
        u64::MAX
    } else {
        (highest + 1) as u64
    }
}

impl AncestorSearch {
    /// A search that examined nothing yet.
    pub open spec fn begun(old_head: BlockRef, new_head: BlockRef, maximum_rewind: u64) -> Self {
        let highest = if old_head.number < new_head.number {
            old_head.number
        } else {
            new_head.number
        };
        AncestorSearch { highest, attempts: search_attempts(highest, maximum_rewind), examined: 0 }
    }

    /// Begins a search below both heads.
    pub fn begin(old_head: BlockRef, new_head: BlockRef, maximum_rewind: u64) -> (r: Self)
        ensures
            r == AncestorSearch::begun(old_head, new_head, maximum_rewind),
    {
        let highest: u64 = if old_head.number < new_head.number {
            old_head.number
        } else {
            new_head.number
        };
        let available: u64 = highest.saturating_add(1);
        let bounded: u64 = maximum_rewind.saturating_add(1);
        let attempts: u64 = if bounded < available {
            bounded
        } else {
            available
        };
        AncestorSearch { highest, attempts, examined: 0 }
    }

    /// Whether the bounds of a search are consistent.
    pub open spec fn wf(self) -> bool {
        self.examined <= self.attempts && self.attempts <= self.highest + 1
    }

    /// What a search asks for next.
    pub open spec fn due(self) -> AncestorStep {
        if self.examined < self.attempts {
            AncestorStep::Examine((self.highest - self.examined) as u64)
        } else {
            AncestorStep::Failed(ChainError::DeepReorg { searched_blocks: self.attempts })
        }
    }

    /// Returns the height to examine, or that the search failed.
    pub fn next(&self) -> (r: AncestorStep)
        requires
            self.wf(),
        ensures
            r == self.due(),
    {
        if self.examined < self.attempts {
            AncestorStep::Examine(self.highest - self.examined)
        } else {
            AncestorStep::Failed(ChainError::DeepReorg { searched_blocks: self.attempts })
        }
    }

    /// What follows the look-up of the height that was due.
    pub open spec fn judged(self, stored: Option<BlockRef>, remote: Option<BlockRef>) -> (
        Self,
        AncestorStep,
    ) {
        let next = AncestorSearch { examined: (self.examined + 1) as u64, ..self };
        match (stored, remote) {
            (Some(stored), Some(remote)) => if stored.hash == remote.hash {
                (self, AncestorStep::Found(remote))
            } else {
                (next, next.due())
            },
            _ => (next, next.due()),
        }
    }

    /// Judges the stored and remote blocks of the height that was due. The remote block is read
    /// only where one is stored.
    pub fn judge(&mut self, stored: Option<BlockRef>, remote: Option<BlockRef>) -> (r: AncestorStep)
        requires
            old(self).wf(),
            old(self).examined < old(self).attempts,
        ensures
            (*final(self), r) == old(self).judged(stored, remote),
            final(self).wf(),
    {
        match (stored, remote) {
            (Some(known), Some(found)) => {
                if known.hash == found.hash {
                    return AncestorStep::Found(found);
                }
            },
            _ => {},
        }
        self.examined = self.examined + 1;
        self.next()
    }
}

/// A search examines at most one height more than the rewind bound, each between the highest common
/// height and the bound below it.
pub proof fn search_stays_within_the_rewind_bound(
    old_head: BlockRef,
    new_head: BlockRef,
    maximum_rewind: u64,
    examined: u64,
)
    ensures
        ({
            let begun = AncestorSearch::begun(old_head, new_head, maximum_rewind);
            let search = AncestorSearch { examined, ..begun };
            &&& begun.wf()
            &&& begun.attempts <= maximum_rewind + 1
            &&& begun.highest <= old_head.number
            &&& begun.highest <= new_head.number
            &&& match search.due() {
                AncestorStep::Examine(height) => height <= begun.highest && height
                    + maximum_rewind >= begun.highest,
                _ => examined >= begun.attempts,
            }
        }),
{
}

/// A found ancestor has the hash that durable history stores.
pub proof fn found_ancestor_is_shared(
    search: AncestorSearch,
    stored: Option<BlockRef>,
    remote: Option<BlockRef>,
)
    ensures
        match search.judged(stored, remote).1 {
            AncestorStep::Found(block) => stored is Some && remote == Some(block)
                && stored->0.hash == block.hash,
            _ => stored is None || remote is None || stored->0.hash != remote->0.hash,
        },
{
}

/// A search begins at the lower head, goes down one height after each look-up that shows no shared
/// block, and gives up after the rewind bound and one more height, or below the first block.
pub proof fn search_descends_to_the_bound(
    old_head: BlockRef,
    new_head: BlockRef,
    maximum_rewind: u64,
    search: AncestorSearch,
    stored: Option<BlockRef>,
    remote: Option<BlockRef>,
)
    requires
        old_head.number < u64::MAX || new_head.number < u64::MAX,
        search == (AncestorSearch {
            examined: search.examined,
            ..AncestorSearch::begun(old_head, new_head, maximum_rewind)
        }),
        search.examined < search.attempts,
    ensures
        ({
            let lower = if old_head.number < new_head.number {
                old_head.number
            } else {
                new_head.number
            };
            let (next, step) = search.judged(stored, remote);
            let shared = stored is Some && remote is Some && stored->0.hash == remote->0.hash;
            let last = search.examined == maximum_rewind || search.examined == lower;
            &&& search.due() == AncestorStep::Examine((lower - search.examined) as u64)
            &&& shared ==> step == AncestorStep::Found(remote->0) && next == search
            &&& !shared ==> next.examined == search.examined + 1
            &&& !shared && !last ==> step == AncestorStep::Examine(
                (lower - search.examined - 1) as u64,
            )
            &&& !shared && last ==> step is Failed && step->Failed_0 is DeepReorg
                && step->Failed_0->DeepReorg_searched_blocks == search.examined + 1
        }),
{
}

} // verus!
