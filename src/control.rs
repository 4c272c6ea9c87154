use vstd::prelude::*;
use crate::constants::{MAX_BIAS, MAX_COORD};
use crate::estimator::Pendulum;
use crate::regulator::{
    position_step, tilt_engaged, tilt_step, PositionRegulator,
    RegulatorCoefficient, TiltRegulator,
};

verus! {

/// One tick of the cascade: the position regulator's bias feeds the tilt
/// regulator's target in the same tick. Gives both memories afterwards and
/// the force commanded.
pub open spec fn control_step(
    tilt: RegulatorCoefficient,
    position: RegulatorCoefficient,
    target: int,
    pendulum: Pendulum,
) -> (RegulatorCoefficient, RegulatorCoefficient, int) {
    let (position_after, bias) = position_step(position, target, pendulum);
    let (tilt_after, force) = tilt_step(tilt, pendulum, bias);
    (tilt_after, position_after, force)
}

/// Both regulators with their initial gains and empty memories.
pub fn setup_regulation() -> (r: (TiltRegulator, PositionRegulator))
    ensures
        r.0.coefficient == RegulatorCoefficient::fresh(-800, -400, -600),
        r.1.coefficient == RegulatorCoefficient::fresh(0, 0, 0),
        r.1.target == 0,
        r.0.wf(),
        r.1.wf(),
{
    (TiltRegulator::new(), PositionRegulator::new())
}

/// Runs one tick of the cascade and returns the cart's horizontal force,
/// in thousandths. The force replaces any earlier command.
pub fn regulator(
    tilt_regulator: &mut TiltRegulator,
    position_regulator: &mut PositionRegulator,
    pendulum: &Pendulum,
) -> (force: i64)
    requires
        old(tilt_regulator).wf(),
        old(position_regulator).wf(),
        -MAX_COORD <= pendulum.position_error <= MAX_COORD,
    ensures
        final(tilt_regulator).wf(),
        final(position_regulator).wf(),
        final(position_regulator).target == old(position_regulator).target,
        (final(tilt_regulator).coefficient, final(position_regulator).coefficient, force as int)
            == control_step(
            old(tilt_regulator).coefficient,
            old(position_regulator).coefficient,
            old(position_regulator).target as int,
            *pendulum,
        ),
        !tilt_engaged(*pendulum) ==> force == 0 && *final(tilt_regulator) == *old(tilt_regulator)
            && *final(position_regulator) == *old(position_regulator),
{
    let bias = position_regulator.step(pendulum);
    tilt_regulator.step(pendulum, bias)
}

/// Forces that a tilt regulator commands over a sequence of ticks, each a
/// pendulum state and a target bias.
pub open spec fn tilt_forces(c: RegulatorCoefficient, ticks: Seq<(Pendulum, i64)>) -> Seq<int>
    decreases ticks.len(),
{
    if ticks.len() == 0 {
        seq![]
    } else {
        let (next, force) = tilt_step(c, ticks[0].0, ticks[0].1 as int);
        seq![force] + tilt_forces(next, ticks.drop_first())
    }
}

/// Memory of a tilt regulator after a sequence of ticks.
pub open spec fn tilt_memory(c: RegulatorCoefficient, ticks: Seq<(Pendulum, i64)>) -> RegulatorCoefficient
    decreases ticks.len(),
{
    if ticks.len() == 0 {
        c
    } else {
        tilt_memory(tilt_step(c, ticks[0].0, ticks[0].1 as int).0, ticks.drop_first())
    }
}

/// The ticks of a sequence on which the tilt regulator is engaged, in order.
pub open spec fn engaged_only(ticks: Seq<(Pendulum, i64)>) -> Seq<(Pendulum, i64)>
    decreases ticks.len(),
{
    if ticks.len() == 0 {
        seq![]
    } else if tilt_engaged(ticks[0].0) {
        seq![ticks[0]] + engaged_only(ticks.drop_first())
    } else {
        engaged_only(ticks.drop_first())
    }
}

/// The forces commanded on the engaged ticks of a sequence, in order.
pub open spec fn engaged_forces(c: RegulatorCoefficient, ticks: Seq<(Pendulum, i64)>) -> Seq<int>
    decreases ticks.len(),
{
    if ticks.len() == 0 {
        seq![]
    } else {
        let (next, force) = tilt_step(c, ticks[0].0, ticks[0].1 as int);
        if tilt_engaged(ticks[0].0) {
            seq![force] + engaged_forces(next, ticks.drop_first())
        } else {
            engaged_forces(next, ticks.drop_first())
        }
    }
}

/// Every bias of a sequence of ticks lies within the range a tilt
/// regulator accepts.
pub open spec fn biases_in_range(ticks: Seq<(Pendulum, i64)>) -> bool {
    forall|k: int| 0 <= k < ticks.len() ==> -MAX_BIAS <= #[trigger] ticks[k].1 <= MAX_BIAS
}

/// Drives a tilt regulator through a scripted sequence of ticks and returns
/// the force of each.
pub fn replay_tilt(regulator: &mut TiltRegulator, ticks: &Vec<(Pendulum, i64)>) -> (forces: Vec<i64>)
    requires
        old(regulator).wf(),
        biases_in_range(ticks@),
    ensures
        final(regulator).wf(),
        forces@.map_values(|f: i64| f as int) == tilt_forces(old(regulator).coefficient, ticks@),
        final(regulator).coefficient == tilt_memory(old(regulator).coefficient, ticks@),
{
    let ghost start = regulator.coefficient;
    let mut forces: Vec<i64> = Vec::new();
    let mut i: usize = 0;
    assert(ticks@.skip(0) =~= ticks@);
    assert(forces@.map_values(|f: i64| f as int) + tilt_forces(start, ticks@) =~= tilt_forces(start, ticks@));
    while i < ticks.len()
        invariant
            0 <= i <= ticks.len(),
            regulator.wf(),
            biases_in_range(ticks@),
            forces@.map_values(|f: i64| f as int) + tilt_forces(regulator.coefficient, ticks@.skip(i as int))
                == tilt_forces(start, ticks@),
            tilt_memory(regulator.coefficient, ticks@.skip(i as int)) == tilt_memory(start, ticks@),
        decreases ticks.len() - i,
    {
        let ghost before = regulator.coefficient;
        let ghost rest = ticks@.skip(i as int);
        let ghost done = forces@.map_values(|f: i64| f as int);
        let (pendulum, bias) = ticks[i];
        assert(-MAX_BIAS <= ticks@[i as int].1 <= MAX_BIAS);
        let force = regulator.step(&pendulum, bias);
        forces.push(force);
        proof {
            assert(rest[0] == ticks@[i as int]);
            assert(rest.drop_first() =~= ticks@.skip(i + 1));
            assert(forces@.map_values(|f: i64| f as int) =~= done.push(force as int));
            assert(done.push(force as int) + tilt_forces(regulator.coefficient, rest.drop_first())
                =~= done + tilt_forces(before, rest));
        }
        i = i + 1;
    }
    assert(ticks@.skip(i as int) =~= seq![]);
    assert(forces@.map_values(|f: i64| f as int) + seq![] =~= forces@.map_values(|f: i64| f as int));
    forces
}

/// A tilt regulator commands no force on a tick where it is disengaged.
pub proof fn lemma_disengaged_tick_commands_nothing(
    c: RegulatorCoefficient,
    ticks: Seq<(Pendulum, i64)>,
    k: int,
)
    requires
        0 <= k < ticks.len(),
        !tilt_engaged(ticks[k].0),
    ensures
        tilt_forces(c, ticks).len() == ticks.len(),
        tilt_forces(c, ticks)[k] == 0,
    decreases k,
{
    lemma_tilt_forces_len(c, ticks);
    let next = tilt_step(c, ticks[0].0, ticks[0].1 as int).0;
    if k > 0 {
        assert(ticks.drop_first()[k - 1] == ticks[k]);
        lemma_disengaged_tick_commands_nothing(next, ticks.drop_first(), k - 1);
    }
}

/// One force per tick.
pub proof fn lemma_tilt_forces_len(c: RegulatorCoefficient, ticks: Seq<(Pendulum, i64)>)
    ensures
        tilt_forces(c, ticks).len() == ticks.len(),
    decreases ticks.len(),
{
    if ticks.len() > 0 {
        lemma_tilt_forces_len(tilt_step(c, ticks[0].0, ticks[0].1 as int).0, ticks.drop_first());
    }
}

/// Disengaged ticks leave no trace: a sequence of ticks leaves the tilt
/// regulator with the memory that its engaged ticks alone leave, and the
/// forces on those ticks are those of the engaged ticks run on their own.
/// Nothing winds up while the regulator is disengaged.
pub proof fn lemma_disengaged_ticks_leave_no_trace(c: RegulatorCoefficient, ticks: Seq<(Pendulum, i64)>)
    ensures
        tilt_memory(c, ticks) == tilt_memory(c, engaged_only(ticks)),
        engaged_forces(c, ticks) == tilt_forces(c, engaged_only(ticks)),
    decreases ticks.len(),
{
    if ticks.len() > 0 {
        let rest = ticks.drop_first();
        let next = tilt_step(c, ticks[0].0, ticks[0].1 as int).0;
        lemma_disengaged_ticks_leave_no_trace(next, rest);
        if tilt_engaged(ticks[0].0) {
            let kept = seq![ticks[0]] + engaged_only(rest);
            assert(kept[0] == ticks[0]);
            assert(kept.drop_first() =~= engaged_only(rest));
        }
    }
}

/// A replay depends on nothing but the gains and the scripted ticks: two
/// tilt regulators with the same gains and empty memories command the same
/// forces over the same ticks and end with the same memory.
pub proof fn lemma_replay_deterministic(
    a: RegulatorCoefficient,
    b: RegulatorCoefficient,
    ticks: Seq<(Pendulum, i64)>,
)
    requires
        a.proportional == b.proportional,
        a.integral == b.integral,
        a.derivative == b.derivative,
        a.cumulative_error == 0 && a.last_error == 0,
        b.cumulative_error == 0 && b.last_error == 0,
    ensures
        tilt_forces(a, ticks) == tilt_forces(b, ticks),
        tilt_memory(a, ticks) == tilt_memory(b, ticks),
{
    assert(a == b);
}

/// Forces that the cascade commands over a sequence of pendulum states.
pub open spec fn cascade_forces(
    tilt: RegulatorCoefficient,
    position: RegulatorCoefficient,
    target: int,
    ticks: Seq<Pendulum>,
) -> Seq<int>
    decreases ticks.len(),
{
    if ticks.len() == 0 {
        seq![]
    } else {
        let (tilt_after, position_after, force) = control_step(tilt, position, target, ticks[0]);
        seq![force] + cascade_forces(tilt_after, position_after, target, ticks.drop_first())
    }
}

/// Memories of the two regulators after a sequence of pendulum states.
pub open spec fn cascade_memory(
    tilt: RegulatorCoefficient,
    position: RegulatorCoefficient,
    target: int,
    ticks: Seq<Pendulum>,
) -> (RegulatorCoefficient, RegulatorCoefficient)
    decreases ticks.len(),
{
    if ticks.len() == 0 {
        (tilt, position)
    } else {
        let (tilt_after, position_after, _) = control_step(tilt, position, target, ticks[0]);
        cascade_memory(tilt_after, position_after, target, ticks.drop_first())
    }
}

/// Every cart offset of a sequence lies within the range the cascade
/// accepts.
pub open spec fn offsets_in_range(ticks: Seq<Pendulum>) -> bool {
    forall|k: int| 0 <= k < ticks.len() ==> -MAX_COORD <= #[trigger] ticks[k].position_error <= MAX_COORD
}

/// Drives the cascade through a scripted sequence of pendulum states and
/// returns the force of each tick.
pub fn replay(
    tilt_regulator: &mut TiltRegulator,
    position_regulator: &mut PositionRegulator,
    ticks: &Vec<Pendulum>,
) -> (forces: Vec<i64>)
    requires
        old(tilt_regulator).wf(),
        old(position_regulator).wf(),
        offsets_in_range(ticks@),
    ensures
        final(tilt_regulator).wf(),
        final(position_regulator).wf(),
        final(position_regulator).target == old(position_regulator).target,
        forces@.map_values(|f: i64| f as int) == cascade_forces(
            old(tilt_regulator).coefficient,
            old(position_regulator).coefficient,
            old(position_regulator).target as int,
            ticks@,
        ),
        (final(tilt_regulator).coefficient, final(position_regulator).coefficient)
            == cascade_memory(
            old(tilt_regulator).coefficient,
            old(position_regulator).coefficient,
            old(position_regulator).target as int,
            ticks@,
        ),
{
    let ghost t0 = tilt_regulator.coefficient;
    let ghost p0 = position_regulator.coefficient;
    let ghost target = position_regulator.target as int;
    let mut forces: Vec<i64> = Vec::new();
    let mut i: usize = 0;
    assert(ticks@.skip(0) =~= ticks@);
    assert(forces@.map_values(|f: i64| f as int) + cascade_forces(t0, p0, target, ticks@)
        =~= cascade_forces(t0, p0, target, ticks@));
    while i < ticks.len()
        invariant
            0 <= i <= ticks.len(),
            tilt_regulator.wf(),
            position_regulator.wf(),
            position_regulator.target == target,
            offsets_in_range(ticks@),
            forces@.map_values(|f: i64| f as int) + cascade_forces(
                tilt_regulator.coefficient,
                position_regulator.coefficient,
                target,
                ticks@.skip(i as int),
            ) == cascade_forces(t0, p0, target, ticks@),
            cascade_memory(
                tilt_regulator.coefficient,
                position_regulator.coefficient,
                target,
                ticks@.skip(i as int),
            ) == cascade_memory(t0, p0, target, ticks@),
        decreases ticks.len() - i,
    {
        let ghost t_before = tilt_regulator.coefficient;
        let ghost p_before = position_regulator.coefficient;
        let ghost rest = ticks@.skip(i as int);
        let ghost done = forces@.map_values(|f: i64| f as int);
        let pendulum = ticks[i];
        assert(-MAX_COORD <= ticks@[i as int].position_error <= MAX_COORD);
        let force = regulator(tilt_regulator, position_regulator, &pendulum);
        forces.push(force);
        proof {
            assert(rest[0] == ticks@[i as int]);
            assert(rest.drop_first() =~= ticks@.skip(i + 1));
            assert(forces@.map_values(|f: i64| f as int) =~= done.push(force as int));
            assert(done.push(force as int) + cascade_forces(
                tilt_regulator.coefficient,
                position_regulator.coefficient,
                target,
                rest.drop_first(),
            ) =~= done + cascade_forces(t_before, p_before, target, rest));
        }
        i = i + 1;
    }
    assert(ticks@.skip(i as int) =~= seq![]);
    assert(forces@.map_values(|f: i64| f as int) + seq![] =~= forces@.map_values(|f: i64| f as int));
    forces
}

/// Running the cascade over two sequences one after the other is running
/// it over their concatenation.
pub proof fn lemma_cascade_concatenation(
    tilt: RegulatorCoefficient,
    position: RegulatorCoefficient,
    target: int,
    first: Seq<Pendulum>,
    second: Seq<Pendulum>,
)
    ensures
        cascade_forces(tilt, position, target, first + second) == cascade_forces(
            tilt,
            position,
            target,
            first,
        ) + cascade_forces(
            cascade_memory(tilt, position, target, first).0,
            cascade_memory(tilt, position, target, first).1,
            target,
            second,
        ),
        cascade_memory(tilt, position, target, first + second) == cascade_memory(
            cascade_memory(tilt, position, target, first).0,
            cascade_memory(tilt, position, target, first).1,
            target,
            second,
        ),
    decreases first.len(),
{
    if first.len() == 0 {
        assert(first + second =~= second);
        assert(seq![] + cascade_forces(tilt, position, target, second) =~= cascade_forces(
            tilt,
            position,
            target,
            second,
        ));
    } else {
        let (t1, p1, force) = control_step(tilt, position, target, first[0]);
        assert((first + second)[0] == first[0]);
        assert((first + second).drop_first() =~= first.drop_first() + second);
        lemma_cascade_concatenation(t1, p1, target, first.drop_first(), second);
        let m = cascade_memory(t1, p1, target, first.drop_first());
        assert(seq![force] + (cascade_forces(t1, p1, target, first.drop_first()) + cascade_forces(
            m.0,
            m.1,
            target,
            second,
        )) =~= (seq![force] + cascade_forces(t1, p1, target, first.drop_first()))
            + cascade_forces(m.0, m.1, target, second));
    }
}

/// Over ticks on which the cascade is disengaged it commands no force and
/// both memories stay as they were.
pub proof fn lemma_cascade_idle(
    tilt: RegulatorCoefficient,
    position: RegulatorCoefficient,
    target: int,
    idle: Seq<Pendulum>,
)
    requires
        forall|k: int| 0 <= k < idle.len() ==> !tilt_engaged(#[trigger] idle[k]),
    ensures
        cascade_forces(tilt, position, target, idle) == Seq::new(idle.len(), |k: int| 0int),
        cascade_memory(tilt, position, target, idle) == (tilt, position),
    decreases idle.len(),
{
    if idle.len() == 0 {
        assert(cascade_forces(tilt, position, target, idle) =~= Seq::new(0, |k: int| 0int));
    } else {
        assert(!tilt_engaged(idle[0]));
        let rest = idle.drop_first();
        assert forall|k: int| 0 <= k < rest.len() implies !tilt_engaged(#[trigger] rest[k]) by {
            assert(rest[k] == idle[k + 1]);
        }
        lemma_cascade_idle(tilt, position, target, rest);
        assert(seq![0int] + Seq::new(rest.len(), |k: int| 0int) =~= Seq::new(
            idle.len(),
            |k: int| 0int,
        ));
    }
}

/// No windup while disengaged: a disengaged interval between two stretches
/// of ticks commands no force, and the cascade leaves it exactly as it
/// entered it. The second stretch then sees the same forces, and both
/// regulators end with the same memories, as if the interval had never
/// happened.
pub proof fn lemma_no_windup_across_disengaged_interval(
    tilt: RegulatorCoefficient,
    position: RegulatorCoefficient,
    target: int,
    before: Seq<Pendulum>,
    idle: Seq<Pendulum>,
    after: Seq<Pendulum>,
)
    requires
        forall|k: int| 0 <= k < idle.len() ==> !tilt_engaged(#[trigger] idle[k]),
    ensures
        ({
            let m = cascade_memory(tilt, position, target, before);
            &&& cascade_forces(tilt, position, target, before + idle + after) == cascade_forces(
                tilt,
                position,
                target,
                before,
            ) + Seq::new(idle.len(), |k: int| 0int) + cascade_forces(m.0, m.1, target, after)
            &&& cascade_forces(tilt, position, target, before + after) == cascade_forces(
                tilt,
                position,
                target,
                before,
            ) + cascade_forces(m.0, m.1, target, after)
            &&& cascade_memory(tilt, position, target, before + idle + after) == cascade_memory(
                tilt,
                position,
                target,
                before + after,
            )
        }),
{
    let m = cascade_memory(tilt, position, target, before);
    lemma_cascade_concatenation(tilt, position, target, before, idle);
    lemma_cascade_idle(m.0, m.1, target, idle);
    lemma_cascade_concatenation(tilt, position, target, before + idle, after);
    lemma_cascade_concatenation(tilt, position, target, before, after);
}

/// A replay of the cascade depends on nothing but the gains, the setpoint
/// and the scripted ticks: two pairs of regulators with the same gains and
/// empty memories command the same forces over the same ticks and end with
/// the same memories.
pub proof fn lemma_cascade_replay_deterministic(
    tilt_a: RegulatorCoefficient,
    position_a: RegulatorCoefficient,
    tilt_b: RegulatorCoefficient,
    position_b: RegulatorCoefficient,
    target: int,
    ticks: Seq<Pendulum>,
)
    requires
        tilt_a == RegulatorCoefficient::fresh(
            tilt_b.proportional as int,
            tilt_b.integral as int,
            tilt_b.derivative as int,
        ),
        tilt_b.cumulative_error == 0 && tilt_b.last_error == 0,
        position_a == RegulatorCoefficient::fresh(
            position_b.proportional as int,
            position_b.integral as int,
            position_b.derivative as int,
        ),
        position_b.cumulative_error == 0 && position_b.last_error == 0,
    ensures
        cascade_forces(tilt_a, position_a, target, ticks) == cascade_forces(
            tilt_b,
            position_b,
            target,
            ticks,
        ),
        cascade_memory(tilt_a, position_a, target, ticks) == cascade_memory(
            tilt_b,
            position_b,
            target,
            ticks,
        ),
{
    assert(tilt_a == tilt_b);
    assert(position_a == position_b);
}

} // verus!
