use vstd::prelude::*;
use crate::constants::HISTORY_LENGTH;
use crate::estimator::Pendulum;

verus! {

/// A sequence after one eviction of its oldest entry, if it holds more than
/// `size` entries.
pub open spec fn evict_oldest<T>(s: Seq<T>, size: nat) -> Seq<T> {
    if s.len() > size {
        s.drop_first()
    } else {
        s
    }
}

/// Drops the oldest entry of a vector that has grown past `size`.
pub fn limit_vector_size<T>(vector: &mut Vec<T>, size: usize)
    ensures
        final(vector)@ == evict_oldest(old(vector)@, size as nat),
{
    if vector.len() > size {
        vector.remove(0);
    }
}

/// Trailing windows of telemetry, one sample per tick: the time in
/// milliseconds and the value.
#[derive(Clone, Debug)]
pub struct PendulumHistory {
    pub tilt_angles: Vec<(u64, Option<i64>)>,
    pub positions: Vec<(u64, i64)>,
    pub applied_forces: Vec<(u64, i64)>,
}

/// A window that grew by one sample keeps the newest ones.
pub open spec fn recorded<T>(window: Seq<T>, sample: T) -> Seq<T> {
    evict_oldest(window.push(sample), HISTORY_LENGTH as nat)
}

/// The last `n` entries of a sequence.
pub open spec fn newest<T>(s: Seq<T>, n: nat) -> Seq<T> {
    s.subrange(s.len() - n, s.len() as int)
}

impl PendulumHistory {
    /// No window holds more than the history's length.
    pub open spec fn wf(&self) -> bool {
        &&& self.tilt_angles@.len() <= HISTORY_LENGTH
        &&& self.positions@.len() <= HISTORY_LENGTH
        &&& self.applied_forces@.len() <= HISTORY_LENGTH
    }

    /// An empty history.
    pub fn new() -> (r: Self)
        ensures
            r.wf(),
            r.tilt_angles@.len() == 0,
            r.positions@.len() == 0,
            r.applied_forces@.len() == 0,
    {
        PendulumHistory { tilt_angles: Vec::new(), positions: Vec::new(), applied_forces: Vec::new() }
    }

    /// Records one tick's tilt, cart position and applied force; each window
    /// then drops its oldest sample if it has grown past its length.
    pub fn record(&mut self, time: u64, pendulum: &Pendulum, force: i64)
        requires
            old(self).wf(),
        ensures
            final(self).wf(),
            final(self).tilt_angles@ == recorded(old(self).tilt_angles@, (time, pendulum.tilt_angle)),
            final(self).positions@ == recorded(old(self).positions@, (time, pendulum.position_error)),
            final(self).applied_forces@ == recorded(old(self).applied_forces@, (time, force)),
    {
        self.tilt_angles.push((time, pendulum.tilt_angle));
        self.positions.push((time, pendulum.position_error));
        self.applied_forces.push((time, force));
        limit_vector_size(&mut self.tilt_angles, HISTORY_LENGTH);
        limit_vector_size(&mut self.positions, HISTORY_LENGTH);
        limit_vector_size(&mut self.applied_forces, HISTORY_LENGTH);
    }
}

/// A window within its length keeps, after one more sample, exactly its
/// newest samples, as many as fit: the oldest is evicted first.
pub proof fn lemma_window_keeps_newest<T>(window: Seq<T>, sample: T)
    requires
        window.len() <= HISTORY_LENGTH,
    ensures
        recorded(window, sample).len() <= HISTORY_LENGTH,
        recorded(window, sample) == newest(
            window.push(sample),
            if window.len() < HISTORY_LENGTH { window.len() + 1 } else { HISTORY_LENGTH as nat },
        ),
        recorded(window, sample).last() == sample,
{
    let grown = window.push(sample);
    if window.len() < HISTORY_LENGTH {
        assert(grown.subrange(0, grown.len() as int) =~= grown);
    } else {
        assert(grown.drop_first() =~= grown.subrange(1, grown.len() as int));
    }
}

} // verus!
