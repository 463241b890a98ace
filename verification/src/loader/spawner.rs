//! The levels that wait to be put into the scene.

use vstd::prelude::*;

verus! {

/// Why a level cannot be put into a scene.
#[derive(Clone, Copy, PartialEq, Eq, Debug, Structural)]
pub enum MapSpawnError {
    /// The level has not been loaded.
    MapNotLoaded,
}

/// The handles of `queued` from position `from` on whose level is not loaded.
pub open spec fn waiting_from(queued: Seq<usize>, loaded: Seq<bool>, from: int) -> Seq<usize>
    decreases queued.len() - from,
{
    if from < 0 || from >= queued.len() {
        Seq::empty()
    } else if loaded[from] {
        waiting_from(queued, loaded, from + 1)
    } else {
        seq![queued[from]] + waiting_from(queued, loaded, from + 1)
    }
}

/// The levels that wait to be put into the scene, by their handles.
#[derive(Debug)]
pub struct MapSpawner {
    pub queued_maps: Vec<usize>,
}

impl MapSpawner {
    /// A spawner with nothing to do.
    pub fn new() -> (spawner: MapSpawner)
        ensures
            spawner.queued_maps@.len() == 0,
    {
        MapSpawner { queued_maps: Vec::new() }
    }

    /// Asks for the level of this handle to be put into the scene.
    pub fn spawn(&mut self, handle: usize)
        ensures
            final(self).queued_maps@ == old(self).queued_maps@.push(handle),
    {
        self.queued_maps.push(handle);
    }

    /// Takes every level that waits out of the queue.
    pub fn take_queued(&mut self) -> (queued: Vec<usize>)
        ensures
            queued@ == old(self).queued_maps@,
            final(self).queued_maps@.len() == 0,
    {
        let mut queued: Vec<usize> = Vec::new();
        std::mem::swap(&mut queued, &mut self.queued_maps);
        queued
    }

    /// Puts back into the queue, in their order, the levels that could not
    /// be put into the scene because they were not loaded. `loaded` tells
    /// for each level of `queued` whether it was.
    pub fn requeue(&mut self, queued: &Vec<usize>, loaded: &Vec<bool>)
        requires
            queued@.len() == loaded@.len(),
        ensures
            final(self).queued_maps@ == old(self).queued_maps@ + waiting_from(
                queued@,
                loaded@,
                0,
            ),
    {
        let ghost before = self.queued_maps@;
        let ghost total = waiting_from(queued@, loaded@, 0);
        let mut i: usize = 0;
        while i < queued.len()
            invariant
                i <= queued.len(),
                queued@.len() == loaded@.len(),
                total == waiting_from(queued@, loaded@, 0),
                self.queued_maps@ + waiting_from(queued@, loaded@, i as int) == before + total,
            decreases queued.len() - i,
        {
            let ghost done = self.queued_maps@;
            let ghost rest = waiting_from(queued@, loaded@, i + 1);
            if !loaded[i] {
                self.queued_maps.push(queued[i]);
                assert(done.push(queued@[i as int]) + rest =~= done + (seq![queued@[i as int]]
                    + rest));
            }
            i += 1;
        }
        assert(self.queued_maps@ + Seq::<usize>::empty() =~= self.queued_maps@);
    }
}

} // verus!
