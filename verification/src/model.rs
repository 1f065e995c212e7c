//! Mathematical model of the simulation core.
//!
//! The ghost states below mirror the executable unit records, and the
//! transition functions are the single definition of what one `compute`
//! call does; the executable code is proved to follow them exactly.
//!
//! Potentials are counted in tenths of a millivolt: the resting value
//! -70.0 mV is the integer -700. Synapse values are counted in millionths
//! of the saturation bound, so `SYNAPSE_ONE` stands for a full-scale
//! signal of 1.0 and every computed value stays strictly below it in
//! magnitude.

use vstd::prelude::*;

verus! {

/// Resting potential of a fresh unit, in tenths of a millivolt (-70.0 mV).
pub const REST_POTENTIAL: i64 = -700;

/// Depolarization threshold of a fresh unit (-55.0 mV).
pub const FIRING_THRESHOLD: i64 = -550;

/// Value recorded at the step on which a unit activates (-55.0 mV).
pub const SPIKE_ONSET: i64 = -550;

/// Peak value held early in the activated phase (40.0 mV).
pub const SPIKE_PEAK: i64 = 400;

/// After-hyperpolarization drop applied late in the activated phase (60.0 mV).
pub const HYPERPOL_DROP: i64 = 600;

/// Periodic leak subtracted on every third step while resting (6.0 mV).
pub const LEAK_DROP: i64 = 60;

/// Integration increment added on other resting steps (3.0 mV).
pub const INTEGRATE_RISE: i64 = 30;

/// Extra boost added while resting when the summed synaptic input is positive.
pub const INPUT_BOOST: i64 = 30;

/// Recovery increment added on each refractory step (15.5 mV).
pub const RECOVERY_RISE: i64 = 155;

/// Steps after activation during which the output holds the peak value.
pub const PEAK_HOLD_STEPS: usize = 2;

/// Steps after activation at which the activated phase ends.
pub const ACTIVE_PHASE_STEPS: usize = 4;

/// Bound of the literal refractory exit comparison (`elapsed < 3`).
pub const REFRACT_EXIT_BOUND: usize = 3;

/// One, in the synapse's fixed-point scale (millionths).
pub const SYNAPSE_ONE: i64 = 1000000;

/// Synapse coupling: a dendrite potential of one tenth of a millivolt
/// contributes this many millionths to the raw synapse signal (the 0.01
/// coupling factor expressed over the two fixed-point scales).
pub const COUPLING_PER_TENTH: i64 = 1000;

/// Largest magnitude a stored potential may have (a machine limit that
/// keeps all sums inside `i64`; it is far beyond any plausible signal).
pub const POT_CAP: i64 = 1000000000;

/// Guarded magnitude a potential must have before a step is applied to it,
/// so that the stepped value stays inside `POT_CAP`.
pub const POT_GUARD: i64 = POT_CAP - 1000;

/// Largest number of inputs a single unit may have (a machine limit).
pub const FAN_CAP: usize = 1000000;

/// Ghost state of a spiking unit: a dendrite or a neuron. Both share the
/// same record shape and the same activated/refractory phases; they differ
/// only in their resting-phase rule.
pub ghost struct UnitState {
    /// Ids of the upstream units this unit reads (synapse ids for a
    /// dendrite, dendrite ids for a neuron).
    pub inputs: Seq<int>,
    /// Append-only series of membrane potentials, one entry per completed
    /// step plus the seed value.
    pub potential: Seq<int>,
    /// Depolarization boundary.
    pub threshold: int,
    /// True while in the activated (depolarization) phase.
    pub activated: bool,
    /// True while in the refractory phase.
    pub refract: bool,
    /// Step at which the unit last entered the activated phase.
    pub activation_time: int,
    /// Step at which the unit last entered the refractory phase.
    pub refraction_time: int,
}

/// Ghost state of a synapse: a stateless-per-step transmission unit whose
/// current value is overwritten on every step.
pub ghost struct SynapseState {
    /// Ids of the upstream dendrites whose potentials are read.
    pub inputs: Seq<int>,
    /// Fixed multiplier of the raw summed signal.
    pub weight: int,
    /// Current transmitted value, in millionths.
    pub value: int,
    /// Excitatory/inhibitory tag; carried but not read by the transform.
    pub ei_type: int,
}

/// Ghost state of a whole network: an arena of units indexed by id.
pub ghost struct NetState {
    pub dendrites: Seq<UnitState>,
    pub synapses: Seq<SynapseState>,
    pub neurons: Seq<UnitState>,
}

/// The state of a freshly constructed dendrite or neuron: resting, with a
/// single seeded resting potential.
pub open spec fn fresh_unit() -> UnitState {
    UnitState {
        inputs: Seq::empty(),
        potential: seq![REST_POTENTIAL as int],
        threshold: FIRING_THRESHOLD as int,
        activated: false,
        refract: false,
        activation_time: 0,
        refraction_time: 0,
    }
}

/// The state of a freshly constructed synapse: unit weight, zero value.
pub open spec fn fresh_synapse() -> SynapseState {
    SynapseState { inputs: Seq::empty(), weight: 1, value: 0, ei_type: 0 }
}

/// A unit re-initialized with an externally produced potential series:
/// the wiring and threshold are kept, the phase state is reset to resting.
pub open spec fn seeded_unit(u: UnitState, p: Seq<int>) -> UnitState {
    UnitState {
        potential: p,
        activated: false,
        refract: false,
        activation_time: 0,
        refraction_time: 0,
        ..u
    }
}

/// The activated and refractory flags are mutually exclusive.
pub open spec fn flags_exclusive(u: UnitState) -> bool {
    !(u.activated && u.refract)
}

/// Sum of a sequence of integers.
pub open spec fn sum_of(s: Seq<int>) -> int
    decreases s.len(),
{
    if s.len() == 0 {
        0
    } else {
        sum_of(s.drop_last()) + s.last()
    }
}

/// The current values of the given synapses, in id order.
pub open spec fn synapse_values(net: NetState, ids: Seq<int>) -> Seq<int> {
    Seq::new(ids.len(), |j: int| net.synapses[ids[j]].value)
}

/// The potentials of the given dendrites at step `t`, in id order.
pub open spec fn dendrite_potentials_at(net: NetState, ids: Seq<int>, t: int) -> Seq<int> {
    Seq::new(ids.len(), |j: int| net.dendrites[ids[j]].potential[t])
}

/// Summed current value of a dendrite's input synapses.
pub open spec fn dendrite_input_sum(net: NetState, ids: Seq<int>) -> int {
    sum_of(synapse_values(net, ids))
}

/// Summed potential of a neuron's input dendrites at step `t`.
pub open spec fn neuron_input_sum(net: NetState, ids: Seq<int>, t: int) -> int {
    sum_of(dendrite_potentials_at(net, ids, t))
}

/// One step of the activated phase, shared by dendrites and neurons:
/// hold the peak early, apply the after-hyperpolarization drop in the
/// middle window, and fall into the refractory phase once the window ends
/// (the potential is then carried over unchanged).
pub open spec fn active_next(u: UnitState, t: int) -> UnitState
    recommends
        u.potential.len() == t + 1,
{
    let elapsed = t - u.activation_time;
    if elapsed < PEAK_HOLD_STEPS as int {
        UnitState { potential: u.potential.push(SPIKE_PEAK as int), ..u }
    } else if elapsed < ACTIVE_PHASE_STEPS as int {
        UnitState { potential: u.potential.push(u.potential[t] - HYPERPOL_DROP as int), ..u }
    } else {
        UnitState {
            potential: u.potential.push(u.potential[t]),
            activated: false,
            refract: true,
            refraction_time: t,
            ..u
        }
    }
}

/// One step of the refractory phase, shared by dendrites and neurons: add
/// the recovery increment, and return to resting at the resting potential
/// when the literal exit comparison (`elapsed < 3`) holds. The comparison
/// is kept exactly as the canonical rule set has it, even though a unit
/// stepped on every step therefore leaves the refractory phase after a
/// single step.
pub open spec fn refractory_next(u: UnitState, t: int) -> UnitState
    recommends
        u.potential.len() == t + 1,
{
    let elapsed = t - u.refraction_time;
    if elapsed < REFRACT_EXIT_BOUND as int {
        UnitState {
            potential: u.potential.push(REST_POTENTIAL as int),
            refract: false,
            ..u
        }
    } else {
        UnitState { potential: u.potential.push(u.potential[t] + RECOVERY_RISE as int), ..u }
    }
}

/// One resting step of a dendrite. The dendrite activates when its own
/// current potential exceeds the threshold; otherwise it integrates with a
/// periodic leak, plus a boost when the summed synaptic input is positive.
pub open spec fn dendrite_resting_next(u: UnitState, input_positive: bool, t: int) -> UnitState
    recommends
        u.potential.len() == t + 1,
{
    if u.potential[t] > u.threshold {
        UnitState {
            potential: u.potential.push(SPIKE_ONSET as int),
            activated: true,
            activation_time: t,
            ..u
        }
    } else {
        let drift = if t % 3 == 0 && t != 0 {
            u.potential[t] - LEAK_DROP as int
        } else {
            u.potential[t] + INTEGRATE_RISE as int
        };
        let boosted = if input_positive {
            drift + INPUT_BOOST as int
        } else {
            drift
        };
        UnitState { potential: u.potential.push(boosted), ..u }
    }
}

/// One resting step of a neuron. The neuron activates when the summed
/// potential of its input dendrites exceeds the threshold; otherwise the
/// summed input is passed through as the new potential.
pub open spec fn neuron_resting_next(u: UnitState, input_sum: int, t: int) -> UnitState
    recommends
        u.potential.len() == t + 1,
{
    if input_sum > u.threshold {
        UnitState {
            potential: u.potential.push(SPIKE_ONSET as int),
            activated: true,
            activation_time: t,
            ..u
        }
    } else {
        UnitState { potential: u.potential.push(input_sum), ..u }
    }
}

/// One full step of a dendrite.
pub open spec fn dendrite_next(u: UnitState, input_positive: bool, t: int) -> UnitState
    recommends
        u.potential.len() == t + 1,
{
    if u.activated {
        active_next(u, t)
    } else if u.refract {
        refractory_next(u, t)
    } else {
        dendrite_resting_next(u, input_positive, t)
    }
}

/// One full step of a neuron.
pub open spec fn neuron_next(u: UnitState, input_sum: int, t: int) -> UnitState
    recommends
        u.potential.len() == t + 1,
{
    if u.activated {
        active_next(u, t)
    } else if u.refract {
        refractory_next(u, t)
    } else {
        neuron_resting_next(u, input_sum, t)
    }
}

/// The saturating nonlinearity of the synapse transform, over millionths.
/// It maps `y` to `y / (1 + |y|)` in real terms, which is strictly inside
/// (-1, 1), preserves the sign, and is close to the identity near zero.
/// The quotient is clamped so the bound stays strict for every input.
pub open spec fn saturate(y: int) -> int {
    if y == 0 {
        0
    } else {
        let a = if y > 0 { y } else { -y };
        let q = (SYNAPSE_ONE as int * SYNAPSE_ONE as int) / (SYNAPSE_ONE as int + a);
        let m = if q == 0 { SYNAPSE_ONE as int - 1 } else { SYNAPSE_ONE as int - q };
        if y > 0 { m } else { -m }
    }
}

/// Raw summed signal of a synapse at step `t`: the coupled input
/// potentials, scaled by the synapse weight.
pub open spec fn synapse_raw(net: NetState, s: SynapseState, t: int) -> int {
    COUPLING_PER_TENTH as int * s.weight * sum_of(dendrite_potentials_at(net, s.inputs, t))
}

/// One step of a synapse: exponential smoothing of the prior value toward
/// the raw signal with factor one half, then the gain-two saturating
/// nonlinearity. The halving and the gain of two cancel exactly, so the
/// new value is the saturation of `raw - prior`.
pub open spec fn synapse_next(net: NetState, s: SynapseState, t: int) -> SynapseState
    recommends
        forall|j: int|
            0 <= j < s.inputs.len() ==> 0 <= #[trigger] s.inputs[j] < net.dendrites.len(),
{
    SynapseState { value: saturate(synapse_raw(net, s, t) - s.value), ..s }
}

/// Well-formedness of a dendrite or neuron state, against the number of
/// source units its input ids index into.
pub open spec fn unit_inv(u: UnitState, n_sources: int) -> bool {
    &&& flags_exclusive(u)
    &&& u.potential.len() >= 1
    &&& forall|k: int|
        0 <= k < u.potential.len() ==> -(POT_CAP as int) <= #[trigger] u.potential[k]
            <= POT_CAP as int
    &&& u.inputs.len() <= FAN_CAP as int
    &&& forall|j: int| 0 <= j < u.inputs.len() ==> 0 <= #[trigger] u.inputs[j] < n_sources
    &&& u.activated ==> 0 <= u.activation_time && u.activation_time + 2 <= u.potential.len()
    &&& u.refract ==> 0 <= u.refraction_time && u.refraction_time + 2 <= u.potential.len()
}

/// Well-formedness of a synapse state: the value is strictly inside the
/// saturation bound and the weight is the fixed unit multiplier.
pub open spec fn synapse_inv(s: SynapseState, n_sources: int) -> bool {
    &&& -(SYNAPSE_ONE as int) < s.value < SYNAPSE_ONE as int
    &&& s.weight == 1
    &&& s.inputs.len() <= FAN_CAP as int
    &&& forall|j: int| 0 <= j < s.inputs.len() ==> 0 <= #[trigger] s.inputs[j] < n_sources
}

/// Well-formedness of a whole network.
pub open spec fn net_inv(net: NetState) -> bool {
    &&& forall|i: int|
        0 <= i < net.dendrites.len() ==> unit_inv(
            #[trigger] net.dendrites[i],
            net.synapses.len() as int,
        )
    &&& forall|i: int|
        0 <= i < net.synapses.len() ==> synapse_inv(
            #[trigger] net.synapses[i],
            net.dendrites.len() as int,
        )
    &&& forall|i: int|
        0 <= i < net.neurons.len() ==> unit_inv(
            #[trigger] net.neurons[i],
            net.dendrites.len() as int,
        )
}

/// The saturating nonlinearity stays strictly inside the open interval
/// (-SYNAPSE_ONE, SYNAPSE_ONE) and preserves the sign of its argument.
pub proof fn lemma_saturate_bounds(y: int)
    ensures
        -(SYNAPSE_ONE as int) < saturate(y) < SYNAPSE_ONE as int,
        y == 0 ==> saturate(y) == 0,
        y > 0 ==> saturate(y) > 0,
        y < 0 ==> saturate(y) < 0,
{
    if y != 0 {
        let s = SYNAPSE_ONE as int;
        let a = if y > 0 { y } else { -y };
        let q = (s * s) / (s + a);
        assert(a >= 1);
        assert(0 <= q <= s - 1) by (nonlinear_arith)
            requires
                a >= 1,
                s == 1000000,
                q == (s * s) / (s + a),
        ;
        let m = if q == 0 { s - 1 } else { s - q };
        assert(1 <= m <= s - 1);
    }
}

/// Dependency-ordering law: a synapse's next value depends only on its
/// own state and its input dendrites' potentials at step `t` itself.
/// Two networks whose input dendrites agree at index `t` — whatever any
/// later entries hold, and whether they exist at all — give the synapse
/// the same next value: there is no lookahead.
pub proof fn lemma_synapse_no_lookahead(net1: NetState, net2: NetState, s: SynapseState, t: int)
    requires
        forall|j: int|
            0 <= j < s.inputs.len() ==> 0 <= #[trigger] s.inputs[j] < net1.dendrites.len()
                && s.inputs[j] < net2.dendrites.len()
                && net1.dendrites[s.inputs[j]].potential[t]
                    == net2.dendrites[s.inputs[j]].potential[t],
    ensures
        synapse_next(net1, s, t) == synapse_next(net2, s, t),
{
    assert(dendrite_potentials_at(net1, s.inputs, t) =~= dendrite_potentials_at(
        net2,
        s.inputs,
        t,
    ));
}

/// Phase-exclusion law: in any well-formed network snapshot, no dendrite
/// or neuron is both activated and refractory.
pub proof fn lemma_flags_never_both(net: NetState)
    requires
        net_inv(net),
    ensures
        forall|i: int|
            0 <= i < net.dendrites.len() ==> flags_exclusive(#[trigger] net.dendrites[i]),
        forall|i: int| 0 <= i < net.neurons.len() ==> flags_exclusive(#[trigger] net.neurons[i]),
{
}

} // verus!
