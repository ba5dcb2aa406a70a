//! The transform step: an ordered chain of transforms, each of which a bit of a shared
//! word of flags switches on or off.

use crate::measurement::{MeasurementBuffer, PointView};
use vstd::prelude::*;

verus! {

/// The number of transforms that one word of flags can control.
pub const MAX_TRANSFORMS: usize = 64;

/// The flags with which every transform is active.
pub const ALL_ACTIVE: u64 = 0xffff_ffff_ffff_ffff;

/// A command for transforms.
#[derive(Clone, Copy, Debug, PartialEq, Eq, Structural)]
pub enum TransformCmd {
    Enable,
    Disable,
}

/// Why a transform failed on a buffer.
#[derive(Clone, Copy, Debug, PartialEq, Eq, Structural)]
pub enum TransformError {
    /// The transform cannot work on what it was given.
    UnexpectedInput,
    /// The transform failed for a reason of its own.
    Fatal,
    /// No output is there to receive what the transforms produce.
    NoReceiver,
}

/// The mask of the transform at position `index` of the chain.
pub open spec fn mask_of(index: usize) -> u64 {
    1u64 << (index as u64)
}

/// Whether `flags` switches on the transform at position `index`.
pub open spec fn is_active(flags: u64, index: usize) -> bool {
    flags & mask_of(index) != 0
}

/// The flags after a command on the transforms that `mask` covers.
pub open spec fn updated_flags(flags: u64, mask: u64, command: TransformCmd) -> u64 {
    match command {
        TransformCmd::Enable => flags | mask,
        TransformCmd::Disable => flags & !mask,
    }
}

/// Whether `after` holds the points of `before`, in their order: a transform may have
/// changed values and attributes, nothing else, and no point was added or dropped.
pub open spec fn keeps_points(before: Seq<PointView>, after: Seq<PointView>) -> bool {
    &&& after.len() == before.len()
    &&& forall|i: int|
        0 <= i < before.len() ==> {
            &&& (#[trigger] after[i]).timestamp == before[i].timestamp
            &&& after[i].metric == before[i].metric
            &&& after[i].resource == before[i].resource
            &&& after[i].consumer == before[i].consumer
        }
}

/// A transform changes a buffer of points in place.
pub trait Transform: Sized {
    /// What one application may do: it turns `self` into `after` and `input` into
    /// `output`, and succeeds or not. A transform that does not say more may do
    /// anything.
    open spec fn may_apply(
        &self,
        input: Seq<PointView>,
        after: &Self,
        output: Seq<PointView>,
        ok: bool,
    ) -> bool {
        true
    }

    /// Applies the transform. Where it succeeds, the buffer holds the same points as
    /// before, with other values or attributes.
    fn apply(&mut self, measurements: &mut MeasurementBuffer) -> (r: Result<(), TransformError>)
        ensures
            old(self).may_apply(old(measurements)@, final(self), final(measurements)@, r.is_ok()),
            r.is_ok() ==> keeps_points(old(measurements)@, final(measurements)@),
    ;
}

/// Whether the first `upto` transforms of the chain were run on a buffer under `flags`:
/// `stages[i]` is the buffer before the transform at position `i` and `stages[i + 1]`
/// the buffer after it. An active transform was applied with success; an inactive one
/// was left alone, and so was the buffer.
pub open spec fn applied_upto<T: Transform>(
    before: Seq<T>,
    after: Seq<T>,
    flags: u64,
    stages: Seq<Seq<PointView>>,
    upto: int,
) -> bool {
    &&& stages.len() == upto + 1
    &&& forall|i: int|
        #![trigger before[i]]
        0 <= i < upto ==> if is_active(flags, i as usize) {
            before[i].may_apply(stages[i], &after[i], stages[i + 1], true)
        } else {
            after[i] == before[i] && stages[i + 1] == stages[i]
        }
}

/// Whether `result` is an outcome of running the chain `before` on `input` under
/// `flags`, which leaves the chain as `after`: either every active transform was applied
/// in the order of the chain and `result` is the buffer after the last one, or the
/// first one that failed ended the run and `result` is its error.
pub open spec fn chain_outcome<T: Transform>(
    before: Seq<T>,
    after: Seq<T>,
    flags: u64,
    input: Seq<PointView>,
    result: Result<Seq<PointView>, TransformError>,
) -> bool {
    &&& after.len() == before.len()
    &&& match result {
        Ok(output) => exists|stages: Seq<Seq<PointView>>|
            {
                &&& #[trigger] applied_upto(before, after, flags, stages, before.len() as int)
                &&& stages[0] == input
                &&& stages[before.len() as int] == output
            },
        Err(_) => exists|stages: Seq<Seq<PointView>>, k: int, output: Seq<PointView>|
            {
                &&& 0 <= k < before.len()
                &&& #[trigger] applied_upto(before, after, flags, stages, k)
                &&& stages[0] == input
                &&& is_active(flags, k as usize)
                &&& #[trigger] before[k].may_apply(stages[k], &after[k], output, false)
                &&& forall|i: int| k < i < before.len() ==> after[i] == before[i]
            },
    }
}

/// The mask of the transform at position `index`.
pub fn transform_mask(index: usize) -> (mask: u64)
    requires
        index < MAX_TRANSFORMS,
    ensures
        mask == mask_of(index),
{
    1u64 << (index as u64)
}

/// Whether `flags` switches on the transform at position `index`.
pub fn transform_is_active(flags: u64, index: usize) -> (b: bool)
    requires
        index < MAX_TRANSFORMS,
    ensures
        b == is_active(flags, index),
{
    flags & (1u64 << (index as u64)) != 0
}

/// The flags after `command` on the transforms that `mask` covers: enabling sets the
/// bits of the mask, disabling clears them, and the other bits stay.
pub fn apply_command(flags: u64, mask: u64, command: TransformCmd) -> (r: u64)
    ensures
        r == updated_flags(flags, mask, command),
{
    match command {
        TransformCmd::Enable => flags | mask,
        TransformCmd::Disable => flags & !mask,
    }
}

/// After a command, a transform is active iff the command enabled it, or it was active
/// and the command did not disable it.
pub proof fn lemma_updated_flags(flags: u64, mask: u64, command: TransformCmd, index: usize)
    requires
        index < MAX_TRANSFORMS,
    ensures
        is_active(updated_flags(flags, mask, command), index) == match command {
            TransformCmd::Enable => is_active(flags, index) || is_active(mask, index),
            TransformCmd::Disable => is_active(flags, index) && !is_active(mask, index),
        },
{
    let i = index as u64;
    assert(((flags | mask) & (1u64 << i) != 0) == ((flags & (1u64 << i) != 0) || (mask & (1u64
        << i) != 0))) by (bit_vector)
        requires
            i < 64,
    ;
    assert(((flags & !mask) & (1u64 << i) != 0) == ((flags & (1u64 << i) != 0) && !(mask & (1u64
        << i) != 0))) by (bit_vector)
        requires
            i < 64,
    ;
}

/// Two commands on masks that share no transform give the same flags in either order.
pub proof fn lemma_disjoint_commands_commute(
    flags: u64,
    mask_a: u64,
    command_a: TransformCmd,
    mask_b: u64,
    command_b: TransformCmd,
)
    requires
        mask_a & mask_b == 0,
    ensures
        updated_flags(updated_flags(flags, mask_a, command_a), mask_b, command_b) == updated_flags(
            updated_flags(flags, mask_b, command_b),
            mask_a,
            command_a,
        ),
{
    assert(((flags | mask_a) | mask_b) == ((flags | mask_b) | mask_a)) by (bit_vector);
    assert(((flags & !mask_a) & !mask_b) == ((flags & !mask_b) & !mask_a)) by (bit_vector);
    assert(((flags | mask_a) & !mask_b) == ((flags & !mask_b) | mask_a)) by (bit_vector)
        requires
            mask_a & mask_b == 0,
    ;
    assert(((flags & !mask_a) | mask_b) == ((flags | mask_b) & !mask_a)) by (bit_vector)
        requires
            mask_a & mask_b == 0,
    ;
}

/// A command that is repeated changes nothing more.
pub proof fn lemma_command_idempotent(flags: u64, mask: u64, command: TransformCmd)
    ensures
        updated_flags(updated_flags(flags, mask, command), mask, command) == updated_flags(
            flags,
            mask,
            command,
        ),
{
    assert(((flags | mask) | mask) == (flags | mask)) by (bit_vector);
    assert(((flags & !mask) & !mask) == (flags & !mask)) by (bit_vector);
}

/// Runs on `measurements` the transforms that `flags` switches on, in the order of the
/// chain. The first failure ends the run.
///
/// Whatever the flags are, a run that succeeds leaves in the buffer the points that
/// were in it: switching a transform on or off changes values, never the points.
pub fn apply_enabled<T: Transform>(
    transforms: &mut Vec<T>,
    flags: u64,
    measurements: &mut MeasurementBuffer,
) -> (r: Result<(), TransformError>)
    requires
        old(transforms).len() <= MAX_TRANSFORMS,
    ensures
        chain_outcome(
            old(transforms)@,
            final(transforms)@,
            flags,
            old(measurements)@,
            match r {
                Ok(_) => Ok(final(measurements)@),
                Err(e) => Err(e),
            },
        ),
        r.is_ok() ==> keeps_points(old(measurements)@, final(measurements)@),
{
    let n = transforms.len();
    let ghost before = transforms@;
    let ghost input = measurements@;
    let ghost mut stages: Seq<Seq<PointView>> = seq![input];
    let mut i: usize = 0;
    while i < n
        invariant
            i <= n,
            n <= MAX_TRANSFORMS,
            n == before.len(),
            before == old(transforms)@,
            input == old(measurements)@,
            transforms.len() == n,
            applied_upto(before, transforms@, flags, stages, i as int),
            stages[0] == input,
            stages[i as int] == measurements@,
            keeps_points(input, measurements@),
            forall|j: int| i <= j < n ==> transforms[j] == before[j],
        decreases n - i,
    {
        let ghost chain = transforms@;
        let ghost current = measurements@;
        if transform_is_active(flags, i) {
            let res = transforms[i].apply(measurements);
            match res {
                Ok(_) => {
                    proof {
                        let ghost earlier = stages;
                        stages = stages.push(measurements@);
                        assert forall|j: int| #![trigger before[j]] 0 <= j < i + 1 implies if is_active(
                            flags,
                            j as usize,
                        ) {
                            before[j].may_apply(stages[j], &transforms@[j], stages[j + 1], true)
                        } else {
                            transforms@[j] == before[j] && stages[j + 1] == stages[j]
                        } by {
                            if j < i {
                                assert(transforms@[j] == chain[j]);
                                assert(earlier[j] == stages[j] && earlier[j + 1] == stages[j + 1]);
                            }
                        }
                    }
                },
                Err(e) => {
                    proof {
                        assert forall|j: int| #![trigger before[j]] 0 <= j < i implies if is_active(
                            flags,
                            j as usize,
                        ) {
                            before[j].may_apply(stages[j], &transforms@[j], stages[j + 1], true)
                        } else {
                            transforms@[j] == before[j] && stages[j + 1] == stages[j]
                        } by {
                            assert(transforms@[j] == chain[j]);
                        }
                        assert(applied_upto(before, transforms@, flags, stages, i as int));
                        assert(before[i as int].may_apply(
                            stages[i as int],
                            &transforms@[i as int],
                            measurements@,
                            false,
                        ));
                        assert forall|j: int| i < j < n implies transforms@[j] == before[j] by {
                            assert(transforms@[j] == chain[j]);
                        }
                        assert(chain_outcome(
                            before,
                            transforms@,
                            flags,
                            input,
                            Err::<Seq<PointView>, TransformError>(e),
                        ));
                    }
                    return Err(e);
                },
            }
        } else {
            proof {
                let ghost earlier = stages;
                stages = stages.push(measurements@);
                assert forall|j: int| #![trigger before[j]] 0 <= j < i + 1 implies if is_active(
                    flags,
                    j as usize,
                ) {
                    before[j].may_apply(stages[j], &transforms@[j], stages[j + 1], true)
                } else {
                    transforms@[j] == before[j] && stages[j + 1] == stages[j]
                } by {
                    if j < i {
                        assert(earlier[j] == stages[j] && earlier[j + 1] == stages[j + 1]);
                    }
                }
            }
        }
        i = i + 1;
    }
    proof {
        assert(applied_upto(before, transforms@, flags, stages, n as int));
    }
    Ok(())
}

/// What the transform task does with what it received.
#[derive(Debug)]
pub enum TransformStep {
    /// Broadcast the buffer to the outputs.
    Broadcast(MeasurementBuffer),
    /// The channel from the sources is closed: warn, and end the task without an error.
    Closed,
    /// End the task with this error.
    Fail(TransformError),
}

/// One round of the transform task: `received` is what the channel from the sources
/// gave, `flags` the activation word as it was read at that moment.
pub fn run_transforms<T: Transform>(
    transforms: &mut Vec<T>,
    flags: u64,
    received: Option<MeasurementBuffer>,
) -> (step: TransformStep)
    requires
        old(transforms).len() <= MAX_TRANSFORMS,
    ensures
        match received {
            None => step is Closed && final(transforms)@ == old(transforms)@,
            Some(input) => {
                &&& !(step is Closed)
                &&& chain_outcome(
                    old(transforms)@,
                    final(transforms)@,
                    flags,
                    input@,
                    match step {
                        TransformStep::Broadcast(output) => Ok(output@),
                        TransformStep::Fail(e) => Err(e),
                        TransformStep::Closed => Err(TransformError::Fatal),
                    },
                )
                &&& step matches TransformStep::Broadcast(output) ==> keeps_points(
                    input@,
                    output@,
                )
            },
        },
{
    match received {
        None => TransformStep::Closed,
        Some(input) => {
            let mut measurements = input;
            match apply_enabled(transforms, flags, &mut measurements) {
                Ok(_) => TransformStep::Broadcast(measurements),
                Err(e) => TransformStep::Fail(e),
            }
        },
    }
}

/// What follows a broadcast: with no receiver left, the task fails.
pub fn after_broadcast(delivered: bool) -> (r: Result<(), TransformError>)
    ensures
        r == (if delivered {
            Ok::<(), TransformError>(())
        } else {
            Err::<(), TransformError>(TransformError::NoReceiver)
        }),
{
    if delivered {
        Ok(())
    } else {
        Err(TransformError::NoReceiver)
    }
}

} // verus!
