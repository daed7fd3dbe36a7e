//! The two-generation snapshot cache.
//!
//! Each sync writes a fresh snapshot; the previous one is kept under a
//! second path and resolves the handheld's writes on the next sync. The
//! filesystem work happens outside the library; here stand the rotation
//! plan, its effect on a model of the two paths, and the rule for a
//! missing previous snapshot.
use vstd::prelude::*;

verus! {

/// One filesystem step of the end-of-sync rotation.
#[derive(Debug, Clone, Copy, PartialEq, Eq, Structural)]
pub enum RotationStep {
    /// Rename the current snapshot over the previous-generation path.
    RenameNewToOld,
    /// Write this sync's snapshot to the current path and flush it.
    WriteNew,
}

/// The steps of the rotation, given whether a current snapshot exists.
pub open spec fn spec_rotation(new_exists: bool) -> Seq<RotationStep> {
    if new_exists {
        seq![RotationStep::RenameNewToOld, RotationStep::WriteNew]
    } else {
        seq![RotationStep::WriteNew]
    }
}

/// Plan the end-of-sync rotation.
pub fn plan_rotation(new_exists: bool) -> (steps: Vec<RotationStep>)
    ensures
        steps@ == spec_rotation(new_exists),
{
    let mut steps: Vec<RotationStep> = Vec::new();
    if new_exists {
        steps.push(RotationStep::RenameNewToOld);
    }
    steps.push(RotationStep::WriteNew);
    proof {
        assert(steps@ =~= spec_rotation(new_exists));
    }
    steps
}

/// A model of the two snapshot paths: the contents of each file, if it
/// exists.
pub ghost struct CacheFiles {
    pub new_file: Option<Seq<u8>>,
    pub old_file: Option<Seq<u8>>,
}

/// The effect of one rotation step on the two paths.
pub open spec fn apply_step(fs: CacheFiles, step: RotationStep, payload: Seq<u8>) -> CacheFiles {
    match step {
        RotationStep::RenameNewToOld => CacheFiles { new_file: None, old_file: fs.new_file },
        RotationStep::WriteNew => CacheFiles { new_file: Some(payload), old_file: fs.old_file },
    }
}

/// The effect of a sequence of rotation steps, applied in order.
pub open spec fn apply_steps(fs: CacheFiles, steps: Seq<RotationStep>, payload: Seq<u8>) -> CacheFiles
    decreases steps.len(),
{
    if steps.len() == 0 {
        fs
    } else {
        apply_steps(apply_step(fs, steps[0], payload), steps.skip(1), payload)
    }
}

/// After the planned rotation, the current path holds this sync's
/// snapshot, and whatever the current path held before now stands at the
/// previous-generation path.
pub proof fn lemma_rotation_atomic(fs: CacheFiles, payload: Seq<u8>)
    ensures
        ({
            let fs2 = apply_steps(fs, spec_rotation(fs.new_file is Some), payload);
            &&& fs2.new_file == Some(payload)
            &&& (fs.new_file matches Some(c) ==> fs2.old_file == Some(c))
            &&& (fs.new_file is None ==> fs2.old_file == fs.old_file)
        }),
{
    let steps = spec_rotation(fs.new_file is Some);
    if fs.new_file is Some {
        let s1 = apply_step(fs, steps[0], payload);
        let rest = steps.skip(1);
        assert(rest.len() == 1 && rest[0] == RotationStep::WriteNew);
        let s2 = apply_step(s1, rest[0], payload);
        assert(rest.skip(1).len() == 0);
        assert(apply_steps(s2, rest.skip(1), payload) == s2);
        assert(apply_steps(s1, rest, payload) == s2);
        assert(apply_steps(fs, steps, payload) == apply_steps(s1, rest, payload));
    } else {
        let s1 = apply_step(fs, steps[0], payload);
        assert(steps.skip(1).len() == 0);
        assert(apply_steps(s1, steps.skip(1), payload) == s1);
        assert(apply_steps(fs, steps, payload) == apply_steps(s1, steps.skip(1), payload));
    }
}

/// What to do with the handheld's writes, given whether the previous
/// snapshot exists and how many writes arrived.
#[derive(Debug, Clone, Copy, PartialEq, Eq, Structural)]
pub enum WritesDecision {
    /// Resolve the writes against the previous snapshot.
    Resolve,
    /// No snapshot, but nothing to write either: succeed silently.
    NothingToDo,
    /// No snapshot and pending writes: the correlation is lost.
    MissingCache,
}

/// The recovery rule for a missing previous snapshot: silence if there is
/// nothing to replay, `CacheInconsistent` otherwise.
pub fn writes_decision(cache_exists: bool, write_count: usize) -> (d: WritesDecision)
    ensures
        cache_exists ==> d == WritesDecision::Resolve,
        !cache_exists && write_count == 0 ==> d == WritesDecision::NothingToDo,
        !cache_exists && write_count > 0 ==> d == WritesDecision::MissingCache,
{
    if cache_exists {
        WritesDecision::Resolve
    } else if write_count == 0 {
        WritesDecision::NothingToDo
    } else {
        WritesDecision::MissingCache
    }
}

} // verus!
