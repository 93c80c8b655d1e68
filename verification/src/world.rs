//! Everything outside the engine, as one value: the filesystem, the
//! operator's pending answers to confirmation prompts, the reports
//! emitted so far, and the external commands launched so far.

use vstd::prelude::*;

use crate::event::{Event, EventV, SpawnV, SpawnedCommand};
use crate::filesystem::{FileSystem, NodeV};

verus! {

/// The outside world the engine acts on.
pub struct World {
    /// The filesystem model.
    pub fs: FileSystem,
    /// Answers the operator will give to confirmation prompts, oldest
    /// first; when they run out, every further prompt reads as "no",
    /// the behaviour of a closed standard input.
    pub answers: Vec<bool>,
    /// Reports emitted so far, oldest first.
    pub events: Vec<Event>,
    /// External commands launched so far, oldest first.
    pub spawned: Vec<SpawnedCommand>,
}

/// The mathematical content of a [`World`].
pub struct WorldV {
    pub fs: Map<Seq<char>, NodeV>,
    pub answers: Seq<bool>,
    pub events: Seq<EventV>,
    pub spawned: Seq<SpawnV>,
}

impl View for World {
    type V = WorldV;

    open spec fn view(&self) -> WorldV {
        WorldV {
            fs: self.fs@,
            answers: self.answers@,
            events: self.events.deep_view(),
            spawned: self.spawned.deep_view(),
        }
    }
}

/// The answer the next prompt receives: the first pending answer, or
/// "no" when none are left.
pub open spec fn spec_next_answer(answers: Seq<bool>) -> bool {
    if answers.len() > 0 {
        answers[0]
    } else {
        false
    }
}

/// The pending answers after one prompt.
pub open spec fn spec_rest_answers(answers: Seq<bool>) -> Seq<bool> {
    if answers.len() > 0 {
        answers.drop_first()
    } else {
        answers
    }
}

impl World {
    /// The filesystem model is well formed.
    pub open spec fn wf(&self) -> bool {
        self.fs.wf()
    }

    /// A world with an empty filesystem, no pending answers, and
    /// nothing reported or launched yet.
    pub fn new() -> (w: World)
        ensures
            w.wf(),
            w@.fs == Map::<Seq<char>, NodeV>::empty(),
            w@.answers == Seq::<bool>::empty(),
            w@.events == Seq::<EventV>::empty(),
            w@.spawned == Seq::<SpawnV>::empty(),
    {
        let w = World {
            fs: FileSystem::new(),
            answers: Vec::new(),
            events: Vec::new(),
            spawned: Vec::new(),
        };
        proof {
            assert(w.events.deep_view() =~= Seq::<EventV>::empty());
            assert(w.spawned.deep_view() =~= Seq::<SpawnV>::empty());
        }
        w
    }

    /// Consume one pending answer; when none are left the prompt reads
    /// as "no".
    pub fn next_answer(&mut self) -> (r: bool)
        ensures
            r == spec_next_answer(old(self).answers@),
            final(self).answers@ == spec_rest_answers(old(self).answers@),
            final(self).fs == old(self).fs,
            final(self).events == old(self).events,
            final(self).spawned == old(self).spawned,
    {
        if self.answers.len() > 0 {
            let a = self.answers.remove(0);
            proof {
                assert(self.answers@ =~= old(self).answers@.drop_first());
            }
            a
        } else {
            false
        }
    }
}

} // verus!
