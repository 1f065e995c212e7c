//! The network arena, the unit handles, and the composer.

use vstd::prelude::*;

use crate::model::{
    dendrite_input_sum, dendrite_next, dendrite_potentials_at, flags_exclusive, fresh_synapse,
    fresh_unit, net_inv, neuron_input_sum, neuron_next, seeded_unit, sum_of, synapse_inv,
    synapse_next, synapse_values, unit_inv, NetState, SynapseState, UnitState,
    ACTIVE_PHASE_STEPS, COUPLING_PER_TENTH, FAN_CAP, FIRING_THRESHOLD, HYPERPOL_DROP,
    INPUT_BOOST, INTEGRATE_RISE, LEAK_DROP, PEAK_HOLD_STEPS, POT_CAP, POT_GUARD,
    RECOVERY_RISE, REFRACT_EXIT_BOUND, REST_POTENTIAL, SPIKE_ONSET, SPIKE_PEAK, SYNAPSE_ONE,
};
use crate::units::{saturate_value, Dunit, Nunit, Sunit};
use vstd::set_lib::{lemma_int_range, lemma_len_subset, set_int_range};

verus! {

/// The arena that owns the canonical state of every unit. Downstream
/// units refer to their inputs by id into these vectors; an input unit
/// may feed several consumers while existing independently.
pub struct Network {
    pub dendrites: Vec<Dunit>,
    pub synapses: Vec<Sunit>,
    pub neurons: Vec<Nunit>,
}

impl View for Network {
    type V = NetState;

    open spec fn view(&self) -> NetState {
        NetState {
            dendrites: self.dendrites@.map_values(|d: Dunit| d@),
            synapses: self.synapses@.map_values(|s: Sunit| s@),
            neurons: self.neurons@.map_values(|n: Nunit| n@),
        }
    }
}

impl Network {
    /// Well-formedness of the arena: every unit's invariant holds and
    /// every input id points into the arena.
    pub open spec fn wf(&self) -> bool {
        net_inv(self@)
    }

    /// An empty network.
    pub fn new() -> (r: Network)
        ensures
            r.wf(),
            r@.dendrites.len() == 0,
            r@.synapses.len() == 0,
            r@.neurons.len() == 0,
    {
        Network { dendrites: Vec::new(), synapses: Vec::new(), neurons: Vec::new() }
    }

    /// Sum of the given dendrites' potentials at step `time`. Under the
    /// arena invariant the fan-in and value bounds keep the sum inside
    /// `i64`.
    #[verifier::loop_isolation(false)]
    fn dendrite_potential_total(&self, ids: &Vec<usize>, time: usize) -> (r: i64)
        requires
            self.wf(),
            ids@.len() <= FAN_CAP,
            forall|j: int|
                0 <= j < ids@.len() ==> (#[trigger] ids@[j]) < self@.dendrites.len()
                    && self@.dendrites[ids@[j] as int].potential.len() > time,
        ensures
            r as int == sum_of(
                dendrite_potentials_at(self@, ids@.map_values(|x: usize| x as int), time as int),
            ),
            -(FAN_CAP as int) * (POT_CAP as int) <= r as int,
            r as int <= (FAN_CAP as int) * (POT_CAP as int),
    {
        let ghost gids = ids@.map_values(|x: usize| x as int);
        let ghost pots = dendrite_potentials_at(self@, gids, time as int);
        let n: usize = ids.len();
        let mut total: i64 = 0;
        let mut j: usize = 0;
        while j < n
            invariant
                j <= n,
                total as int == sum_of(pots.subrange(0, j as int)),
                -(j as int) * (POT_CAP as int) <= total as int,
                total as int <= (j as int) * (POT_CAP as int),
            decreases n - j,
        {
            let did = ids[j];
            proof {
                assert(unit_inv(self@.dendrites[did as int], self@.synapses.len() as int));
                assert(pots[j as int] == self@.dendrites[did as int].potential[time as int]);
                assert(pots.subrange(0, j as int + 1).drop_last() =~= pots.subrange(0, j as int));
                assert((j as int + 1) * (POT_CAP as int) == (j as int) * (POT_CAP as int)
                    + POT_CAP as int) by (nonlinear_arith);
                assert((j as int) * (POT_CAP as int) <= (FAN_CAP as int) * (POT_CAP as int))
                    by (nonlinear_arith)
                    requires
                        0 <= j < FAN_CAP,
                ;
            }
            let p = self.dendrites[did].potential[time];
            total = total + p;
            j = j + 1;
        }
        proof {
            assert(pots.subrange(0, n as int) =~= pots);
            assert((n as int) * (POT_CAP as int) <= (FAN_CAP as int) * (POT_CAP as int))
                by (nonlinear_arith)
                requires
                    0 <= n <= FAN_CAP,
            ;
        }
        total
    }
}

/// Identifies one unit in a network's arena.
#[derive(Clone, Copy, PartialEq, Eq, Structural, Debug)]
pub enum UnitId {
    Dendrite(usize),
    Synapse(usize),
    Neuron(usize),
}

/// Why a run stopped before completing all its steps. All of these are
/// configuration or programming errors: the run is aborted at the first
/// one, nothing is retried.
#[derive(Clone, Copy, PartialEq, Eq, Structural, Debug)]
pub enum SimError {
    /// A unit id does not point into the arena.
    InvalidUnit,
    /// A unit was about to be computed for a step other than the next
    /// expected one (its series did not hold exactly `t + 1` values).
    OutOfOrder,
    /// An input potential series is too short for the step being
    /// evaluated, so reading `potential[t]` would be out of bounds.
    MisalignedStimulus,
    /// A potential left the machine-limit range that keeps the arithmetic
    /// inside `i64`.
    PotentialOutOfRange,
}

/// One checked dendrite step: the checks `run` makes before computing
/// dendrite `i` for step `t`, and the state it leaves on success.
pub open spec fn dendrite_step_spec(net: NetState, i: int, t: int) -> Result<NetState, SimError> {
    if !(0 <= i < net.dendrites.len()) {
        Result::Err(SimError::InvalidUnit)
    } else {
        let u = net.dendrites[i];
        if u.potential.len() != t + 1 {
            Result::Err(SimError::OutOfOrder)
        } else if !(-(POT_GUARD as int) <= u.potential[t] <= POT_GUARD as int) {
            Result::Err(SimError::PotentialOutOfRange)
        } else {
            Result::Ok(NetState {
                dendrites: net.dendrites.update(
                    i,
                    dendrite_next(u, dendrite_input_sum(net, u.inputs) > 0, t),
                ),
                ..net
            })
        }
    }
}

/// One checked synapse step.
pub open spec fn synapse_step_spec(net: NetState, i: int, t: int) -> Result<NetState, SimError> {
    if !(0 <= i < net.synapses.len()) {
        Result::Err(SimError::InvalidUnit)
    } else {
        let s = net.synapses[i];
        if exists|j: int|
            0 <= j < s.inputs.len() && net.dendrites[#[trigger] s.inputs[j]].potential.len()
                <= t {
            Result::Err(SimError::MisalignedStimulus)
        } else {
            Result::Ok(NetState { synapses: net.synapses.update(i, synapse_next(net, s, t)), ..net })
        }
    }
}

/// One checked neuron step.
pub open spec fn neuron_step_spec(net: NetState, i: int, t: int) -> Result<NetState, SimError> {
    if !(0 <= i < net.neurons.len()) {
        Result::Err(SimError::InvalidUnit)
    } else {
        let u = net.neurons[i];
        if u.potential.len() != t + 1 {
            Result::Err(SimError::OutOfOrder)
        } else if !(-(POT_GUARD as int) <= u.potential[t] <= POT_GUARD as int) {
            Result::Err(SimError::PotentialOutOfRange)
        } else if exists|j: int|
            0 <= j < u.inputs.len() && net.dendrites[#[trigger] u.inputs[j]].potential.len()
                <= t {
            Result::Err(SimError::MisalignedStimulus)
        } else if !(-(POT_GUARD as int) <= neuron_input_sum(net, u.inputs, t) <= POT_GUARD as int) {
            Result::Err(SimError::PotentialOutOfRange)
        } else {
            Result::Ok(NetState {
                neurons: net.neurons.update(i, neuron_next(u, neuron_input_sum(net, u.inputs, t), t)),
                ..net
            })
        }
    }
}

/// One checked step of whichever unit `u` names.
pub open spec fn step_unit_spec(net: NetState, u: UnitId, t: int) -> Result<NetState, SimError> {
    match u {
        UnitId::Dendrite(i) => dendrite_step_spec(net, i as int, t),
        UnitId::Synapse(i) => synapse_step_spec(net, i as int, t),
        UnitId::Neuron(i) => neuron_step_spec(net, i as int, t),
    }
}

/// Folds the checked steps of one time step over `order`, starting at
/// position `k`. On the first failed check the state reached so far is
/// kept and the error is reported.
pub open spec fn run_units_spec(net: NetState, order: Seq<UnitId>, k: int, t: int) -> (
    NetState,
    Result<(), SimError>,
)
    decreases order.len() - k,
{
    if !(0 <= k < order.len()) {
        (net, Result::Ok(()))
    } else {
        match step_unit_spec(net, order[k], t) {
            Result::Ok(n2) => run_units_spec(n2, order, k + 1, t),
            Result::Err(e) => (net, Result::Err(e)),
        }
    }
}

/// Folds whole time steps from `t` up to `steps`. The result is a pure
/// function of the starting state, the order and the step count: two runs
/// from equal states are identical.
pub open spec fn run_spec(net: NetState, order: Seq<UnitId>, t: int, steps: int) -> (
    NetState,
    Result<(), SimError>,
)
    decreases steps - t,
{
    if !(0 <= t < steps) {
        (net, Result::Ok(()))
    } else {
        let r = run_units_spec(net, order, 0, t);
        if r.1 is Ok {
            run_spec(r.0, order, t + 1, steps)
        } else {
            r
        }
    }
}

/// Why the composer refused a wiring.
#[derive(Clone, Copy, PartialEq, Eq, Structural, Debug)]
pub enum WiringError {
    /// A unit id does not point into the arena.
    InvalidUnit,
    /// The same unit is listed twice.
    DuplicateUnit,
    /// The wiring among the listed units is cyclic: no evaluation order
    /// can respect it.
    Cycle,
}

/// Whether `u` points into the arena.
pub open spec fn id_valid(net: NetState, u: UnitId) -> bool {
    match u {
        UnitId::Dendrite(i) => (i as int) < net.dendrites.len(),
        UnitId::Synapse(i) => (i as int) < net.synapses.len(),
        UnitId::Neuron(i) => (i as int) < net.neurons.len(),
    }
}

/// A nonempty set of positions into `driven` in which every unit is fed
/// by another unit of the set: such a set certifies that the wiring among
/// the listed units is cyclic, since no unit of the set could ever be
/// evaluated first.
pub open spec fn blocked_set(net: NetState, driven: Seq<UnitId>, s: Set<int>) -> bool {
    &&& s.finite()
    &&& s.len() > 0
    &&& forall|v: int| #[trigger] s.contains(v) ==> 0 <= v < driven.len()
    &&& forall|v: int|
        #[trigger] s.contains(v) ==> exists|w: int| s.contains(w) && feeds(net, driven[w], driven[v])
}

/// `p` feeds `u`: within one time step the composer must evaluate `p`
/// before `u`. A synapse reads its input dendrites, a dendrite reads its
/// input synapses, and a neuron reads its input dendrites.
pub open spec fn feeds(net: NetState, p: UnitId, u: UnitId) -> bool {
    match (p, u) {
        (UnitId::Dendrite(d), UnitId::Synapse(s)) => (s as int) < net.synapses.len()
            && net.synapses[s as int].inputs.contains(d as int),
        (UnitId::Synapse(s), UnitId::Dendrite(d)) => (d as int) < net.dendrites.len()
            && net.dendrites[d as int].inputs.contains(s as int),
        (UnitId::Dendrite(d), UnitId::Neuron(n)) => (n as int) < net.neurons.len()
            && net.neurons[n as int].inputs.contains(d as int),
        _ => false,
    }
}

/// Handle to a dendrite in a network's arena.
pub struct Dendrite {
    pub unit: usize,
}

/// Handle to a synapse in a network's arena.
pub struct Synapse {
    pub unit: usize,
}

/// Handle to a neuron in a network's arena.
pub struct Neuron {
    pub unit: usize,
}

impl Dendrite {
    /// Adds a fresh resting dendrite to the arena and returns its handle.
    pub fn new(net: &mut Network) -> (r: Dendrite)
        requires
            old(net).wf(),
        ensures
            final(net).wf(),
            r.unit == old(net)@.dendrites.len(),
            final(net)@ == (NetState {
                dendrites: old(net)@.dendrites.push(fresh_unit()),
                ..old(net)@
            }),
    {
        let mut potential: Vec<i64> = Vec::new();
        potential.push(REST_POTENTIAL);
        let unit = Dunit {
            inputs: Vec::new(),
            potential,
            threshold: FIRING_THRESHOLD,
            refract: false,
            activated: false,
            refraction_time: 0,
            activation_time: 0,
        };
        proof {
            assert(unit@.potential =~= fresh_unit().potential);
            assert(unit@.inputs =~= fresh_unit().inputs);
        }
        let id = net.dendrites.len();
        net.dendrites.push(unit);
        proof {
            assert(net@.dendrites =~= old(net)@.dendrites.push(fresh_unit()));
            assert(net@.synapses =~= old(net)@.synapses);
            assert(net@.neurons =~= old(net)@.neurons);
        }
        Dendrite { unit: id }
    }

    /// Computes this dendrite's value for step `time`: reads the already
    /// computed `potential[time]`, sums the current values of the input
    /// synapses, advances the three-phase state machine, and appends
    /// exactly one value to the potential series.
    #[verifier::loop_isolation(false)]
    pub fn compute(&self, net: &mut Network, time: usize)
        requires
            old(net).wf(),
            self.unit < old(net)@.dendrites.len(),
            old(net)@.dendrites[self.unit as int].potential.len() == time + 1,
            -(POT_GUARD as int) <= old(net)@.dendrites[self.unit as int].potential[time as int],
            old(net)@.dendrites[self.unit as int].potential[time as int] <= POT_GUARD as int,
        ensures
            final(net).wf(),
            final(net)@ == (NetState {
                dendrites: old(net)@.dendrites.update(
                    self.unit as int,
                    dendrite_next(
                        old(net)@.dendrites[self.unit as int],
                        dendrite_input_sum(
                            old(net)@,
                            old(net)@.dendrites[self.unit as int].inputs,
                        ) > 0,
                        time as int,
                    ),
                ),
                ..old(net)@
            }),
            final(net)@.dendrites[self.unit as int].potential.len() == time + 2,
            flags_exclusive(final(net)@.dendrites[self.unit as int]),
            !old(net)@.dendrites[self.unit as int].activated
                && !old(net)@.dendrites[self.unit as int].refract
                && old(net)@.dendrites[self.unit as int].potential[time as int]
                    > old(net)@.dendrites[self.unit as int].threshold
                ==> final(net)@.dendrites[self.unit as int].activated
                    && final(net)@.dendrites[self.unit as int].potential[time as int + 1]
                        == SPIKE_ONSET as int,
    {
        let i = self.unit;
        let ghost u0 = net@.dendrites[i as int];
        let ghost vals = synapse_values(net@, u0.inputs);
        proof {
            assert(unit_inv(u0, net@.synapses.len() as int));
        }
        let n_inputs: usize = net.dendrites[i].inputs.len();
        let mut ssum: i64 = 0;
        let mut j: usize = 0;
        while j < n_inputs
            invariant
                j <= n_inputs,
                ssum as int == sum_of(vals.subrange(0, j as int)),
                -(j as int) * (SYNAPSE_ONE as int) <= ssum as int,
                ssum as int <= (j as int) * (SYNAPSE_ONE as int),
            decreases n_inputs - j,
        {
            let sid = net.dendrites[i].inputs[j];
            proof {
                assert(u0.inputs[j as int] == sid as int);
                assert(synapse_inv(net@.synapses[sid as int], net@.dendrites.len() as int));
                assert(vals[j as int] == net@.synapses[sid as int].value);
                assert(vals.subrange(0, j as int + 1).drop_last() =~= vals.subrange(0, j as int));
                assert((j as int + 1) * (SYNAPSE_ONE as int) == (j as int) * (SYNAPSE_ONE as int)
                    + SYNAPSE_ONE as int) by (nonlinear_arith);
                assert((j as int) * (SYNAPSE_ONE as int) <= (FAN_CAP as int) * (SYNAPSE_ONE as int))
                    by (nonlinear_arith)
                    requires
                        0 <= j < FAN_CAP,
                ;
            }
            let v = net.synapses[sid].value;
            ssum = ssum + v;
            j = j + 1;
        }
        proof {
            assert(vals.subrange(0, n_inputs as int) =~= vals);
        }
        let input_positive = ssum > 0;
        proof {
            assert(input_positive == (dendrite_input_sum(net@, u0.inputs) > 0));
        }
        let d_act = net.dendrites[i].activated;
        let d_ref = net.dendrites[i].refract;
        let d_thr = net.dendrites[i].threshold;
        let pot_t = net.dendrites[i].potential[time];
        let act_t = net.dendrites[i].activation_time;
        let ref_t = net.dendrites[i].refraction_time;
        let mut new_val: i64;
        let mut new_act: bool = d_act;
        let mut new_ref: bool = d_ref;
        let mut new_at: usize = act_t;
        let mut new_rt: usize = ref_t;
        if d_act {
            let elapsed = time - act_t;
            if elapsed < PEAK_HOLD_STEPS {
                new_val = SPIKE_PEAK;
            } else if elapsed < ACTIVE_PHASE_STEPS {
                new_val = pot_t - HYPERPOL_DROP;
            } else {
                new_val = pot_t;
                new_act = false;
                new_ref = true;
                new_rt = time;
            }
        } else if !d_ref {
            if pot_t > d_thr {
                new_val = SPIKE_ONSET;
                new_act = true;
                new_at = time;
            } else {
                let mut v = if time % 3 == 0 && time != 0 {
                    pot_t - LEAK_DROP
                } else {
                    pot_t + INTEGRATE_RISE
                };
                if input_positive {
                    v = v + INPUT_BOOST;
                }
                new_val = v;
            }
        } else {
            let elapsed = time - ref_t;
            if elapsed < REFRACT_EXIT_BOUND {
                new_val = REST_POTENTIAL;
                new_ref = false;
            } else {
                new_val = pot_t + RECOVERY_RISE;
            }
        }
        let du = &mut net.dendrites[i];
        du.activated = new_act;
        du.refract = new_ref;
        du.activation_time = new_at;
        du.refraction_time = new_rt;
        du.potential.push(new_val);
        proof {
            let fu = dendrite_next(u0, dendrite_input_sum(old(net)@, u0.inputs) > 0, time as int);
            assert(net.dendrites@[i as int]@.potential =~= fu.potential);
            assert(net.dendrites@[i as int]@.inputs =~= fu.inputs);
            assert(net.dendrites@[i as int]@ == fu);
            assert(net@.dendrites =~= old(net)@.dendrites.update(i as int, fu));
            assert(net@.synapses =~= old(net)@.synapses);
            assert(net@.neurons =~= old(net)@.neurons);
            assert(unit_inv(fu, net@.synapses.len() as int));
        }
    }

    /// Appends a synapse to this dendrite's input list.
    pub fn attach_input(&self, net: &mut Network, s: &Synapse)
        requires
            old(net).wf(),
            self.unit < old(net)@.dendrites.len(),
            s.unit < old(net)@.synapses.len(),
            old(net)@.dendrites[self.unit as int].inputs.len() < FAN_CAP as int,
        ensures
            final(net).wf(),
            final(net)@ == (NetState {
                dendrites: old(net)@.dendrites.update(
                    self.unit as int,
                    (UnitState {
                        inputs: old(net)@.dendrites[self.unit as int].inputs.push(s.unit as int),
                        ..old(net)@.dendrites[self.unit as int]
                    }),
                ),
                ..old(net)@
            }),
    {
        let du = &mut net.dendrites[self.unit];
        du.inputs.push(s.unit);
        proof {
            let target = (UnitState {
                inputs: old(net)@.dendrites[self.unit as int].inputs.push(s.unit as int),
                ..old(net)@.dendrites[self.unit as int]
            });
            assert(net.dendrites@[self.unit as int]@.inputs =~= target.inputs);
            assert(net@.dendrites =~= old(net)@.dendrites.update(self.unit as int, target));
            assert(net@.synapses =~= old(net)@.synapses);
            assert(net@.neurons =~= old(net)@.neurons);
        }
    }

    /// Overwrites this dendrite's potential series with an externally
    /// produced stimulus sequence and resets the phase state to resting.
    /// Intended to run before the simulation starts.
    pub fn seed(&self, net: &mut Network, values: Vec<i64>)
        requires
            old(net).wf(),
            self.unit < old(net)@.dendrites.len(),
            values@.len() >= 1,
            forall|k: int|
                0 <= k < values@.len() ==> -POT_CAP <= #[trigger] values@[k] <= POT_CAP,
        ensures
            final(net).wf(),
            final(net)@ == (NetState {
                dendrites: old(net)@.dendrites.update(
                    self.unit as int,
                    seeded_unit(
                        old(net)@.dendrites[self.unit as int],
                        values@.map_values(|x: i64| x as int),
                    ),
                ),
                ..old(net)@
            }),
    {
        let ghost target = seeded_unit(
            old(net)@.dendrites[self.unit as int],
            values@.map_values(|x: i64| x as int),
        );
        let du = &mut net.dendrites[self.unit];
        du.potential = values;
        du.activated = false;
        du.refract = false;
        du.activation_time = 0;
        du.refraction_time = 0;
        proof {
            assert(net.dendrites@[self.unit as int]@.inputs =~= target.inputs);
            assert(net@.dendrites =~= old(net)@.dendrites.update(self.unit as int, target));
            assert(net@.synapses =~= old(net)@.synapses);
            assert(net@.neurons =~= old(net)@.neurons);
        }
    }
}

impl Synapse {
    /// Adds a fresh synapse to the arena and returns its handle.
    pub fn new(net: &mut Network) -> (r: Synapse)
        requires
            old(net).wf(),
        ensures
            final(net).wf(),
            r.unit == old(net)@.synapses.len(),
            final(net)@ == (NetState {
                synapses: old(net)@.synapses.push(fresh_synapse()),
                ..old(net)@
            }),
    {
        let unit = Sunit { inputs: Vec::new(), weight: 1, value: 0, ei_type: 0 };
        proof {
            assert(unit@.inputs =~= fresh_synapse().inputs);
        }
        let id = net.synapses.len();
        net.synapses.push(unit);
        proof {
            assert(net@.synapses =~= old(net)@.synapses.push(fresh_synapse()));
            assert(net@.dendrites =~= old(net)@.dendrites);
            assert(net@.neurons =~= old(net)@.neurons);
        }
        Synapse { unit: id }
    }

    /// Computes this synapse's value for step `time`: reads `potential[time]`
    /// from every input dendrite, couples and sums them, scales by the
    /// weight, smooths the prior value toward the result and saturates.
    /// The new value always lies strictly inside the saturation bound.
    pub fn compute(&self, net: &mut Network, time: usize)
        requires
            old(net).wf(),
            self.unit < old(net)@.synapses.len(),
            forall|j: int|
                0 <= j < old(net)@.synapses[self.unit as int].inputs.len()
                    ==> old(net)@.dendrites[#[trigger] old(net)@.synapses[self.unit as int].inputs[j]].potential.len()
                        > time,
        ensures
            final(net).wf(),
            final(net)@ == (NetState {
                synapses: old(net)@.synapses.update(
                    self.unit as int,
                    synapse_next(old(net)@, old(net)@.synapses[self.unit as int], time as int),
                ),
                ..old(net)@
            }),
            -(SYNAPSE_ONE as int) < final(net)@.synapses[self.unit as int].value,
            final(net)@.synapses[self.unit as int].value < SYNAPSE_ONE as int,
    {
        let i = self.unit;
        let ghost s0 = net@.synapses[i as int];
        proof {
            assert(synapse_inv(s0, net@.dendrites.len() as int));
        }
        let ghost gids = net.synapses@[i as int].inputs@.map_values(|x: usize| x as int);
        proof {
            assert(gids =~= s0.inputs);
        }
        let ids = &net.synapses[i].inputs;
        proof {
            assert forall|j: int|
                0 <= j < ids@.len() implies (#[trigger] ids@[j]) < net@.dendrites.len()
                && net@.dendrites[ids@[j] as int].potential.len() > time by {
                assert(s0.inputs[j] == ids@[j] as int);
            }
        }
        let total = net.dendrite_potential_total(ids, time);
        proof {
            assert((FAN_CAP as int) * (POT_CAP as int) == 1000000000000000int) by (nonlinear_arith);
            assert(-1000000000000000int <= total as int <= 1000000000000000int);
            assert(-1000000000000000000int <= (COUPLING_PER_TENTH as int) * (total as int)
                <= 1000000000000000000int) by (nonlinear_arith)
                requires
                    COUPLING_PER_TENTH == 1000i64,
                    -1000000000000000int <= total as int <= 1000000000000000int,
            ;
        }
        let w = net.synapses[i].weight;
        proof {
            assert(w == 1);
            assert((COUPLING_PER_TENTH as int) * (w as int) * (total as int)
                == (COUPLING_PER_TENTH as int) * (total as int)) by (nonlinear_arith)
                requires
                    w as int == 1,
            ;
        }
        let raw = COUPLING_PER_TENTH * total;
        let prior = net.synapses[i].value;
        let y = raw - prior;
        let nv = saturate_value(y);
        let su = &mut net.synapses[i];
        su.value = nv;
        proof {
            let fs = synapse_next(old(net)@, s0, time as int);
            assert(net.synapses@[i as int]@.inputs =~= fs.inputs);
            assert(net.synapses@[i as int]@ == fs);
            assert(net@.synapses =~= old(net)@.synapses.update(i as int, fs));
            assert(net@.dendrites =~= old(net)@.dendrites);
            assert(net@.neurons =~= old(net)@.neurons);
        }
    }

    /// Appends a dendrite to this synapse's input list.
    pub fn attach_input(&self, net: &mut Network, d: &Dendrite)
        requires
            old(net).wf(),
            self.unit < old(net)@.synapses.len(),
            d.unit < old(net)@.dendrites.len(),
            old(net)@.synapses[self.unit as int].inputs.len() < FAN_CAP as int,
        ensures
            final(net).wf(),
            final(net)@ == (NetState {
                synapses: old(net)@.synapses.update(
                    self.unit as int,
                    (SynapseState {
                        inputs: old(net)@.synapses[self.unit as int].inputs.push(d.unit as int),
                        ..old(net)@.synapses[self.unit as int]
                    }),
                ),
                ..old(net)@
            }),
    {
        let su = &mut net.synapses[self.unit];
        su.inputs.push(d.unit);
        proof {
            let target = (SynapseState {
                inputs: old(net)@.synapses[self.unit as int].inputs.push(d.unit as int),
                ..old(net)@.synapses[self.unit as int]
            });
            assert(net.synapses@[self.unit as int]@.inputs =~= target.inputs);
            assert(net@.synapses =~= old(net)@.synapses.update(self.unit as int, target));
            assert(net@.dendrites =~= old(net)@.dendrites);
            assert(net@.neurons =~= old(net)@.neurons);
        }
    }
}

impl Neuron {
    /// Adds a fresh resting neuron to the arena and returns its handle.
    pub fn new(net: &mut Network) -> (r: Neuron)
        requires
            old(net).wf(),
        ensures
            final(net).wf(),
            r.unit == old(net)@.neurons.len(),
            final(net)@ == (NetState {
                neurons: old(net)@.neurons.push(fresh_unit()),
                ..old(net)@
            }),
    {
        let mut potential: Vec<i64> = Vec::new();
        potential.push(REST_POTENTIAL);
        let unit = Nunit {
            inputs: Vec::new(),
            potential,
            threshold: FIRING_THRESHOLD,
            refract: false,
            activated: false,
            refraction_time: 0,
            activation_time: 0,
        };
        proof {
            assert(unit@.potential =~= fresh_unit().potential);
            assert(unit@.inputs =~= fresh_unit().inputs);
        }
        let id = net.neurons.len();
        net.neurons.push(unit);
        proof {
            assert(net@.neurons =~= old(net)@.neurons.push(fresh_unit()));
            assert(net@.dendrites =~= old(net)@.dendrites);
            assert(net@.synapses =~= old(net)@.synapses);
        }
        Neuron { unit: id }
    }

    /// Computes this neuron's value for step `time`: reads the already
    /// computed `potential[time]`, sums the potentials of its input
    /// dendrites at `time` directly (no synaptic squashing), advances the
    /// three-phase state machine, and appends exactly one value to the
    /// potential series. While resting and below threshold the summed
    /// input is passed through as the new potential.
    pub fn compute(&self, net: &mut Network, time: usize)
        requires
            old(net).wf(),
            self.unit < old(net)@.neurons.len(),
            old(net)@.neurons[self.unit as int].potential.len() == time + 1,
            -(POT_GUARD as int) <= old(net)@.neurons[self.unit as int].potential[time as int],
            old(net)@.neurons[self.unit as int].potential[time as int] <= POT_GUARD as int,
            forall|j: int|
                0 <= j < old(net)@.neurons[self.unit as int].inputs.len()
                    ==> old(net)@.dendrites[#[trigger] old(net)@.neurons[self.unit as int].inputs[j]].potential.len()
                        > time,
            -(POT_GUARD as int) <= neuron_input_sum(
                old(net)@,
                old(net)@.neurons[self.unit as int].inputs,
                time as int,
            ),
            neuron_input_sum(old(net)@, old(net)@.neurons[self.unit as int].inputs, time as int)
                <= POT_GUARD as int,
        ensures
            final(net).wf(),
            final(net)@ == (NetState {
                neurons: old(net)@.neurons.update(
                    self.unit as int,
                    neuron_next(
                        old(net)@.neurons[self.unit as int],
                        neuron_input_sum(
                            old(net)@,
                            old(net)@.neurons[self.unit as int].inputs,
                            time as int,
                        ),
                        time as int,
                    ),
                ),
                ..old(net)@
            }),
            final(net)@.neurons[self.unit as int].potential.len() == time + 2,
            flags_exclusive(final(net)@.neurons[self.unit as int]),
            !old(net)@.neurons[self.unit as int].activated
                && !old(net)@.neurons[self.unit as int].refract
                && neuron_input_sum(
                    old(net)@,
                    old(net)@.neurons[self.unit as int].inputs,
                    time as int,
                ) > old(net)@.neurons[self.unit as int].threshold
                ==> final(net)@.neurons[self.unit as int].activated
                    && final(net)@.neurons[self.unit as int].potential[time as int + 1]
                        == SPIKE_ONSET as int,
    {
        let i = self.unit;
        let ghost u0 = net@.neurons[i as int];
        proof {
            assert(unit_inv(u0, net@.dendrites.len() as int));
        }
        let ghost gids = net.neurons@[i as int].inputs@.map_values(|x: usize| x as int);
        proof {
            assert(gids =~= u0.inputs);
        }
        let ids = &net.neurons[i].inputs;
        proof {
            assert forall|j: int|
                0 <= j < ids@.len() implies (#[trigger] ids@[j]) < net@.dendrites.len()
                && net@.dendrites[ids@[j] as int].potential.len() > time by {
                assert(u0.inputs[j] == ids@[j] as int);
            }
        }
        let total = net.dendrite_potential_total(ids, time);
        let n_act = net.neurons[i].activated;
        let n_ref = net.neurons[i].refract;
        let n_thr = net.neurons[i].threshold;
        let pot_t = net.neurons[i].potential[time];
        let act_t = net.neurons[i].activation_time;
        let ref_t = net.neurons[i].refraction_time;
        let mut new_val: i64;
        let mut new_act: bool = n_act;
        let mut new_ref: bool = n_ref;
        let mut new_at: usize = act_t;
        let mut new_rt: usize = ref_t;
        if n_act {
            let elapsed = time - act_t;
            if elapsed < PEAK_HOLD_STEPS {
                new_val = SPIKE_PEAK;
            } else if elapsed < ACTIVE_PHASE_STEPS {
                new_val = pot_t - HYPERPOL_DROP;
            } else {
                new_val = pot_t;
                new_act = false;
                new_ref = true;
                new_rt = time;
            }
        } else if !n_ref {
            if total > n_thr {
                new_val = SPIKE_ONSET;
                new_act = true;
                new_at = time;
            } else {
                new_val = total;
            }
        } else {
            let elapsed = time - ref_t;
            if elapsed < REFRACT_EXIT_BOUND {
                new_val = REST_POTENTIAL;
                new_ref = false;
            } else {
                new_val = pot_t + RECOVERY_RISE;
            }
        }
        let nu = &mut net.neurons[i];
        nu.activated = new_act;
        nu.refract = new_ref;
        nu.activation_time = new_at;
        nu.refraction_time = new_rt;
        nu.potential.push(new_val);
        proof {
            let fu = neuron_next(u0, neuron_input_sum(old(net)@, u0.inputs, time as int), time as int);
            assert(net.neurons@[i as int]@.potential =~= fu.potential);
            assert(net.neurons@[i as int]@.inputs =~= fu.inputs);
            assert(net.neurons@[i as int]@ == fu);
            assert(net@.neurons =~= old(net)@.neurons.update(i as int, fu));
            assert(net@.dendrites =~= old(net)@.dendrites);
            assert(net@.synapses =~= old(net)@.synapses);
            assert(unit_inv(fu, net@.dendrites.len() as int));
        }
    }

    /// Read-only view for the visualization collaborator: the potential
    /// series of each direct input dendrite, followed by this neuron's
    /// own series.
    #[verifier::loop_isolation(false)]
    pub fn plot_data(&self, net: &Network) -> (r: Vec<Vec<i64>>)
        requires
            net.wf(),
            self.unit < net@.neurons.len(),
        ensures
            r@.len() == net@.neurons[self.unit as int].inputs.len() + 1,
            forall|j: int|
                0 <= j < net@.neurons[self.unit as int].inputs.len()
                    ==> (#[trigger] r@[j])@.map_values(|x: i64| x as int)
                        == net@.dendrites[net@.neurons[self.unit as int].inputs[j]].potential,
            r@[r@.len() - 1]@.map_values(|x: i64| x as int)
                == net@.neurons[self.unit as int].potential,
    {
        let i = self.unit;
        let ghost u0 = net@.neurons[i as int];
        proof {
            assert(unit_inv(u0, net@.dendrites.len() as int));
        }
        let n = net.neurons[i].inputs.len();
        let mut out: Vec<Vec<i64>> = Vec::new();
        let mut j: usize = 0;
        while j < n
            invariant
                j <= n,
                out@.len() == j,
                forall|m: int|
                    0 <= m < j ==> (#[trigger] out@[m])@.map_values(|x: i64| x as int)
                        == net@.dendrites[u0.inputs[m]].potential,
            decreases n - j,
        {
            let did = net.neurons[i].inputs[j];
            proof {
                assert(u0.inputs[j as int] == did as int);
            }
            let series = net.dendrites[did].potential.clone();
            proof {
                assert(series@ =~= net.dendrites@[did as int].potential@);
                assert(series@.map_values(|x: i64| x as int) =~= net@.dendrites[did as int].potential);
            }
            out.push(series);
            j = j + 1;
        }
        let own = net.neurons[i].potential.clone();
        proof {
            assert(own@ =~= net.neurons@[i as int].potential@);
            assert(own@.map_values(|x: i64| x as int) =~= u0.potential);
        }
        out.push(own);
        out
    }

    /// Appends a dendrite to this neuron's input list.
    pub fn attach_input(&self, net: &mut Network, d: &Dendrite)
        requires
            old(net).wf(),
            self.unit < old(net)@.neurons.len(),
            d.unit < old(net)@.dendrites.len(),
            old(net)@.neurons[self.unit as int].inputs.len() < FAN_CAP as int,
        ensures
            final(net).wf(),
            final(net)@ == (NetState {
                neurons: old(net)@.neurons.update(
                    self.unit as int,
                    (UnitState {
                        inputs: old(net)@.neurons[self.unit as int].inputs.push(d.unit as int),
                        ..old(net)@.neurons[self.unit as int]
                    }),
                ),
                ..old(net)@
            }),
    {
        let nu = &mut net.neurons[self.unit];
        nu.inputs.push(d.unit);
        proof {
            let target = (UnitState {
                inputs: old(net)@.neurons[self.unit as int].inputs.push(d.unit as int),
                ..old(net)@.neurons[self.unit as int]
            });
            assert(net.neurons@[self.unit as int]@.inputs =~= target.inputs);
            assert(net@.neurons =~= old(net)@.neurons.update(self.unit as int, target));
            assert(net@.dendrites =~= old(net)@.dendrites);
            assert(net@.synapses =~= old(net)@.synapses);
        }
    }
}

impl Network {
    /// Checked dendrite step used by `run`.
    fn step_dendrite(&mut self, i: usize, t: usize) -> (r: Result<(), SimError>)
        requires
            old(self).wf(),
        ensures
            final(self).wf(),
            match dendrite_step_spec(old(self)@, i as int, t as int) {
                Result::Ok(n2) => r == Result::<(), SimError>::Ok(()) && final(self)@ == n2,
                Result::Err(e) => r == Result::<(), SimError>::Err(e) && final(self)@ == old(
                    self,
                )@,
            },
    {
        if i >= self.dendrites.len() {
            return Result::Err(SimError::InvalidUnit);
        }
        let len = self.dendrites[i].potential.len();
        if len == 0 || len - 1 != t {
            return Result::Err(SimError::OutOfOrder);
        }
        let p = self.dendrites[i].potential[t];
        if p < -POT_GUARD || p > POT_GUARD {
            return Result::Err(SimError::PotentialOutOfRange);
        }
        let h = Dendrite { unit: i };
        h.compute(self, t);
        Result::Ok(())
    }

    /// Checked synapse step used by `run`.
    #[verifier::loop_isolation(false)]
    fn step_synapse(&mut self, i: usize, t: usize) -> (r: Result<(), SimError>)
        requires
            old(self).wf(),
        ensures
            final(self).wf(),
            match synapse_step_spec(old(self)@, i as int, t as int) {
                Result::Ok(n2) => r == Result::<(), SimError>::Ok(()) && final(self)@ == n2,
                Result::Err(e) => r == Result::<(), SimError>::Err(e) && final(self)@ == old(
                    self,
                )@,
            },
    {
        if i >= self.synapses.len() {
            return Result::Err(SimError::InvalidUnit);
        }
        proof {
            assert(synapse_inv(self@.synapses[i as int], self@.dendrites.len() as int));
        }
        let n = self.synapses[i].inputs.len();
        let mut j: usize = 0;
        while j < n
            invariant
                j <= n,
                forall|m: int|
                    0 <= m < j ==> self@.dendrites[#[trigger] self@.synapses[i as int].inputs[m]].potential.len()
                        > t,
            decreases n - j,
        {
            let did = self.synapses[i].inputs[j];
            proof {
                assert(self@.synapses[i as int].inputs[j as int] == did as int);
            }
            if self.dendrites[did].potential.len() <= t {
                return Result::Err(SimError::MisalignedStimulus);
            }
            j = j + 1;
        }
        let h = Synapse { unit: i };
        h.compute(self, t);
        Result::Ok(())
    }

    /// Checked neuron step used by `run`.
    #[verifier::loop_isolation(false)]
    fn step_neuron(&mut self, i: usize, t: usize) -> (r: Result<(), SimError>)
        requires
            old(self).wf(),
        ensures
            final(self).wf(),
            match neuron_step_spec(old(self)@, i as int, t as int) {
                Result::Ok(n2) => r == Result::<(), SimError>::Ok(()) && final(self)@ == n2,
                Result::Err(e) => r == Result::<(), SimError>::Err(e) && final(self)@ == old(
                    self,
                )@,
            },
    {
        if i >= self.neurons.len() {
            return Result::Err(SimError::InvalidUnit);
        }
        proof {
            assert(unit_inv(self@.neurons[i as int], self@.dendrites.len() as int));
        }
        let len = self.neurons[i].potential.len();
        if len == 0 || len - 1 != t {
            return Result::Err(SimError::OutOfOrder);
        }
        let p = self.neurons[i].potential[t];
        if p < -POT_GUARD || p > POT_GUARD {
            return Result::Err(SimError::PotentialOutOfRange);
        }
        let n = self.neurons[i].inputs.len();
        let mut j: usize = 0;
        while j < n
            invariant
                j <= n,
                forall|m: int|
                    0 <= m < j ==> self@.dendrites[#[trigger] self@.neurons[i as int].inputs[m]].potential.len()
                        > t,
            decreases n - j,
        {
            let did = self.neurons[i].inputs[j];
            proof {
                assert(self@.neurons[i as int].inputs[j as int] == did as int);
            }
            if self.dendrites[did].potential.len() <= t {
                return Result::Err(SimError::MisalignedStimulus);
            }
            j = j + 1;
        }
        let ghost u0 = self@.neurons[i as int];
        let ids = &self.neurons[i].inputs;
        proof {
            assert(ids@.map_values(|x: usize| x as int) =~= u0.inputs);
            assert forall|m: int|
                0 <= m < ids@.len() implies (#[trigger] ids@[m]) < self@.dendrites.len()
                && self@.dendrites[ids@[m] as int].potential.len() > t by {
                assert(u0.inputs[m] == ids@[m] as int);
            }
        }
        let total = self.dendrite_potential_total(ids, t);
        if total < -POT_GUARD || total > POT_GUARD {
            return Result::Err(SimError::PotentialOutOfRange);
        }
        let h = Neuron { unit: i };
        h.compute(self, t);
        Result::Ok(())
    }

    /// Drives the network: for each time step `t` from 0 to `steps` - 1,
    /// computes every unit named in `order`, in that order. Every check a
    /// unit's computation needs is made first; the first violated check
    /// aborts the run with its error, keeping the state already reached.
    /// The whole run is a pure function of the starting state, the order
    /// and the step count, stated by `run_spec`.
    #[verifier::loop_isolation(false)]
    pub fn run(&mut self, order: &Vec<UnitId>, steps: usize) -> (r: Result<(), SimError>)
        requires
            old(self).wf(),
        ensures
            final(self).wf(),
            final(self)@ == run_spec(old(self)@, order@, 0, steps as int).0,
            r == run_spec(old(self)@, order@, 0, steps as int).1,
    {
        let ghost net0 = self@;
        let mut t: usize = 0;
        while t < steps
            invariant
                t <= steps,
                self.wf(),
                run_spec(net0, order@, 0, steps as int) == run_spec(
                    self@,
                    order@,
                    t as int,
                    steps as int,
                ),
            decreases steps - t,
        {
            let ghost snet = self@;
            let mut k: usize = 0;
            while k < order.len()
                invariant
                    k <= order.len(),
                    t < steps,
                    self.wf(),
                    run_units_spec(snet, order@, 0, t as int) == run_units_spec(
                        self@,
                        order@,
                        k as int,
                        t as int,
                    ),
                    run_spec(net0, order@, 0, steps as int) == run_spec(
                        snet,
                        order@,
                        t as int,
                        steps as int,
                    ),
                decreases order.len() - k,
            {
                let u = order[k];
                let res: Result<(), SimError> = match u {
                    UnitId::Dendrite(i) => self.step_dendrite(i, t),
                    UnitId::Synapse(i) => self.step_synapse(i, t),
                    UnitId::Neuron(i) => self.step_neuron(i, t),
                };
                if let Result::Err(e) = res {
                    proof {
                        assert(run_units_spec(snet, order@, 0, t as int) == (
                            self@,
                            Result::<(), SimError>::Err(e),
                        ));
                        assert(run_spec(snet, order@, t as int, steps as int) == (
                            self@,
                            Result::<(), SimError>::Err(e),
                        ));
                    }
                    return Result::Err(e);
                }
                k = k + 1;
            }
            proof {
                assert(run_units_spec(snet, order@, 0, t as int) == (
                    self@,
                    Result::<(), SimError>::Ok(()),
                ));
                assert(run_spec(snet, order@, t as int, steps as int) == run_spec(
                    self@,
                    order@,
                    t as int + 1,
                    steps as int,
                ));
            }
            t = t + 1;
        }
        Result::Ok(())
    }
}

/// Among `idxs` of distinct values inside [0, n) with fewer than `n`
/// entries, some value of [0, n) is missing.
proof fn lemma_missing_index(idxs: Seq<int>, n: int)
    requires
        idxs.no_duplicates(),
        forall|m: int| 0 <= m < idxs.len() ==> 0 <= #[trigger] idxs[m] < n,
        idxs.len() < n,
    ensures
        exists|v: int| 0 <= v < n && !idxs.contains(v),
{
    broadcast use vstd::seq_lib::seq_to_set_is_finite;

    idxs.unique_seq_to_set();
    lemma_int_range(0, n);
    if !(exists|v: int| 0 <= v < n && !idxs.contains(v)) {
        assert forall|v: int| set_int_range(0, n).contains(v) implies idxs.to_set().contains(
            v,
        ) by {
            assert(idxs.contains(v));
        }
        assert(set_int_range(0, n).subset_of(idxs.to_set()));
        lemma_len_subset(set_int_range(0, n), idxs.to_set());
        assert(false);
    }
}

impl Network {
    /// Whether `x` occurs in an input-id list.
    fn contains_id(v: &Vec<usize>, x: usize) -> (b: bool)
        ensures
            b == v@.map_values(|y: usize| y as int).contains(x as int),
    {
        let n = v.len();
        let mut j: usize = 0;
        while j < n
            invariant
                j <= n,
                n == v@.len(),
                forall|m: int| 0 <= m < j ==> #[trigger] v@[m] != x,
            decreases n - j,
        {
            if v[j] == x {
                proof {
                    assert(v@.map_values(|y: usize| y as int)[j as int] == x as int);
                }
                return true;
            }
            j = j + 1;
        }
        proof {
            let mapped = v@.map_values(|y: usize| y as int);
            assert forall|m: int| 0 <= m < mapped.len() implies #[trigger] mapped[m] != x as int by {
                assert(v@[m] != x);
            }
        }
        false
    }

    /// Whether `p` must be evaluated before `u` within one step.
    fn unit_feeds(&self, p: UnitId, u: UnitId) -> (b: bool)
        ensures
            b == feeds(self@, p, u),
    {
        match (p, u) {
            (UnitId::Dendrite(d), UnitId::Synapse(s)) => s < self.synapses.len()
                && Self::contains_id(&self.synapses[s].inputs, d),
            (UnitId::Synapse(s), UnitId::Dendrite(d)) => d < self.dendrites.len()
                && Self::contains_id(&self.dendrites[d].inputs, s),
            (UnitId::Dendrite(d), UnitId::Neuron(n)) => n < self.neurons.len()
                && Self::contains_id(&self.neurons[n].inputs, d),
            _ => false,
        }
    }

    /// Scans for a ready unit: one not yet placed and not fed by any
    /// unplaced listed unit. Returns its position, or the list length
    /// when every unplaced unit still has an unplaced feeder.
    #[verifier::loop_isolation(false)]
    fn find_ready_unit(&self, driven: &Vec<UnitId>, placed: &Vec<bool>) -> (pick: usize)
        requires
            placed@.len() == driven@.len(),
        ensures
            pick <= driven@.len(),
            pick < driven@.len() ==> !placed@[pick as int] && forall|jj: int|
                0 <= jj < driven@.len() && !placed@[jj] ==> !feeds(
                    self@,
                    #[trigger] driven@[jj],
                    driven@[pick as int],
                ),
            pick == driven@.len() ==> forall|m: int|
                0 <= m < driven@.len() && !placed@[m] ==> exists|jj: int|
                    0 <= jj < driven@.len() && !placed@[jj] && feeds(
                        self@,
                        driven@[jj],
                        #[trigger] driven@[m],
                    ),
    {
        let n = driven.len();
        let mut i: usize = 0;
        while i < n
            invariant
                i <= n,
                forall|m: int|
                    0 <= m < i && !placed@[m] ==> exists|jj: int|
                        0 <= jj < n as int && !placed@[jj] && feeds(
                            self@,
                            driven@[jj],
                            #[trigger] driven@[m],
                        ),
            decreases n - i,
        {
            if !placed[i] {
                let mut ready = true;
                let mut j: usize = 0;
                while j < n
                    invariant
                        j <= n,
                        i < n,
                        ready ==> forall|jj: int|
                            0 <= jj < j && !placed@[jj] ==> !feeds(
                                self@,
                                #[trigger] driven@[jj],
                                driven@[i as int],
                            ),
                        !ready ==> exists|jj: int|
                            0 <= jj < n as int && !placed@[jj] && feeds(
                                self@,
                                driven@[jj],
                                driven@[i as int],
                            ),
                    decreases n - j,
                {
                    if !placed[j] && self.unit_feeds(driven[j], driven[i]) {
                        ready = false;
                    }
                    j = j + 1;
                }
                if ready {
                    return i;
                }
            }
            i = i + 1;
        }
        n
    }

    /// Builds a per-step evaluation order for the listed units: the same
    /// units, arranged so that every unit comes after all listed units
    /// that feed it. Fails when a unit id does not point into the arena,
    /// when a unit is listed twice, or when the wiring among the listed
    /// units is cyclic; in the cyclic case a nonempty set of list
    /// positions exists in which every unit is fed by another of the set.
    #[verifier::loop_isolation(false)]
    #[verifier::rlimit(60)]
    pub fn evaluation_order(&self, driven: &Vec<UnitId>) -> (r: Result<Vec<UnitId>, WiringError>)
        ensures
            (r == Result::<Vec<UnitId>, WiringError>::Err(WiringError::InvalidUnit) <==> exists|x: int|
                0 <= x < driven@.len() && !id_valid(self@, #[trigger] driven@[x])),
            (r == Result::<Vec<UnitId>, WiringError>::Err(WiringError::DuplicateUnit) <==> ((
            forall|x: int| 0 <= x < driven@.len() ==> id_valid(self@, #[trigger] driven@[x]))
                && !driven@.no_duplicates())),
            r matches Result::Ok(ord) ==> ({
                &&& ord@.len() == driven@.len()
                &&& ord@.no_duplicates()
                &&& (forall|u: UnitId| ord@.contains(u) <==> driven@.contains(u))
                &&& (forall|m: int, p: UnitId|
                    0 <= m < ord@.len() && driven@.contains(p) && #[trigger] feeds(
                        self@,
                        p,
                        ord@[m],
                    ) ==> exists|y: int| 0 <= y < m && ord@[y] == p)
            }),
            r == Result::<Vec<UnitId>, WiringError>::Err(WiringError::Cycle) ==> exists|s: Set<int>|
                #[trigger] blocked_set(self@, driven@, s),
    {
        let n = driven.len();
        let mut x: usize = 0;
        while x < n
            invariant
                x <= n,
                forall|m: int| 0 <= m < x ==> id_valid(self@, #[trigger] driven@[m]),
            decreases n - x,
        {
            let ok = match driven[x] {
                UnitId::Dendrite(i) => i < self.dendrites.len(),
                UnitId::Synapse(i) => i < self.synapses.len(),
                UnitId::Neuron(i) => i < self.neurons.len(),
            };
            if !ok {
                return Result::Err(WiringError::InvalidUnit);
            }
            x = x + 1;
        }
        let mut a: usize = 0;
        while a < n
            invariant
                a <= n,
                forall|p: int, q: int|
                    #![trigger driven@[p], driven@[q]]
                    0 <= p < a && p < q < n as int ==> driven@[p] != driven@[q],
            decreases n - a,
        {
            let mut b: usize = a + 1;
            while b < n
                invariant
                    a < n,
                    a < b <= n,
                    forall|q: int| a < q < b ==> driven@[a as int] != #[trigger] driven@[q],
                decreases n - b,
            {
                if driven[a] == driven[b] {
                    proof {
                        assert(!driven@.no_duplicates());
                    }
                    return Result::Err(WiringError::DuplicateUnit);
                }
                b = b + 1;
            }
            a = a + 1;
        }
        proof {
            assert forall|p: int, q: int|
                0 <= p < n as int && 0 <= q < n as int && p != q implies driven@[p] != driven@[q] by {
                if p < q {
                    assert(driven@[p] != driven@[q]);
                } else {
                    assert(driven@[q] != driven@[p]);
                }
            }
            assert(driven@.no_duplicates());
        }
        let mut placed: Vec<bool> = Vec::new();
        let mut z: usize = 0;
        while z < n
            invariant
                z <= n,
                placed@.len() == z,
                forall|m: int| 0 <= m < z ==> !(#[trigger] placed@[m]),
            decreases n - z,
        {
            placed.push(false);
            z = z + 1;
        }
        let mut order_out: Vec<UnitId> = Vec::new();
        let ghost mut idxs: Seq<int> = Seq::empty();
        while order_out.len() < n
            invariant
                order_out@.len() == idxs.len(),
                idxs.len() <= n,
                idxs.no_duplicates(),
                forall|m: int| 0 <= m < idxs.len() ==> 0 <= #[trigger] idxs[m] < n as int,
                placed@.len() == n,
                forall|v: int| 0 <= v < n as int ==> (#[trigger] placed@[v] == idxs.contains(v)),
                forall|m: int|
                    0 <= m < idxs.len() ==> order_out@[m] == driven@[#[trigger] idxs[m]],
                forall|m: int, p: UnitId|
                    0 <= m < order_out@.len() && driven@.contains(p) && #[trigger] feeds(
                        self@,
                        p,
                        order_out@[m],
                    ) ==> exists|y: int| 0 <= y < m && order_out@[y] == p,
            decreases n - order_out.len(),
        {
            let pick = self.find_ready_unit(driven, &placed);
            if pick == n {
                proof {
                    lemma_cycle_certificate(self@, driven@, placed@, idxs);
                }
                return Result::Err(WiringError::Cycle);
            }
            let ghost idxs0 = idxs;
            let ghost order0 = order_out@;
            let ghost placed0 = placed@;
            order_out.push(driven[pick]);
            placed[pick] = true;
            proof {
                idxs = idxs.push(pick as int);
                lemma_place_unit(self@, driven@, placed0, idxs0, order0, pick as int);
            }
        }
        proof {
            lemma_complete_order(driven@, order_out@, idxs);
        }
        Result::Ok(order_out)
    }
}

/// When the composer finds no ready unit, the units still unplaced form a
/// nonempty set in which every unit is fed by another of the set: the
/// certificate of a cycle.
#[verifier::rlimit(100)]
proof fn lemma_cycle_certificate(
    net: NetState,
    driven: Seq<UnitId>,
    placed: Seq<bool>,
    idxs: Seq<int>,
)
    requires
        placed.len() == driven.len(),
        idxs.no_duplicates(),
        idxs.len() < driven.len(),
        forall|m: int| 0 <= m < idxs.len() ==> 0 <= #[trigger] idxs[m] < driven.len(),
        forall|v: int| 0 <= v < driven.len() ==> (#[trigger] placed[v] == idxs.contains(v)),
        forall|m: int|
            0 <= m < driven.len() && !placed[m] ==> exists|jj: int|
                0 <= jj < driven.len() && !placed[jj] && feeds(net, driven[jj], #[trigger] driven[m]),
    ensures
        exists|s: Set<int>| #[trigger] blocked_set(net, driven, s),
{
    let n = driven.len() as int;
    lemma_missing_index(idxs, n);
    let s = Set::new(|v: int| 0 <= v < n && !placed[v]);
    assert(s.subset_of(set_int_range(0, n)));
    lemma_int_range(0, n);
    lemma_len_subset(s, set_int_range(0, n));
    let miss = choose|v: int| 0 <= v < n && !idxs.contains(v);
    assert(s.contains(miss));
    if s.len() == 0 {
        s.lemma_len0_is_empty();
        assert(false);
    }
    assert forall|v: int| #[trigger] s.contains(v) implies exists|w: int|
        s.contains(w) && feeds(net, driven[w], driven[v]) by {
        assert(!placed[v]);
        let jj = choose|jj: int|
            0 <= jj < driven.len() && !placed[jj] && feeds(net, driven[jj], driven[v]);
        assert(s.contains(jj));
        assert(feeds(net, driven[jj], driven[v]));
    }
    assert(blocked_set(net, driven, s));
}

/// Placing a ready unit keeps every invariant of the composer's main
/// loop: the index list stays distinct and mirrored by the flags, and
/// the extended order still respects the wiring.
proof fn lemma_place_unit(
    net: NetState,
    driven: Seq<UnitId>,
    placed0: Seq<bool>,
    idxs0: Seq<int>,
    order0: Seq<UnitId>,
    pick: int,
)
    requires
        placed0.len() == driven.len(),
        order0.len() == idxs0.len(),
        idxs0.no_duplicates(),
        forall|m: int| 0 <= m < idxs0.len() ==> 0 <= #[trigger] idxs0[m] < driven.len(),
        forall|v: int| 0 <= v < driven.len() ==> (#[trigger] placed0[v] == idxs0.contains(v)),
        forall|m: int| 0 <= m < idxs0.len() ==> order0[m] == driven[#[trigger] idxs0[m]],
        forall|m: int, p: UnitId|
            0 <= m < order0.len() && driven.contains(p) && #[trigger] feeds(net, p, order0[m])
                ==> exists|y: int| 0 <= y < m && order0[y] == p,
        0 <= pick < driven.len(),
        !placed0[pick],
        forall|jj: int|
            0 <= jj < driven.len() && !placed0[jj] ==> !feeds(
                net,
                #[trigger] driven[jj],
                driven[pick],
            ),
    ensures
        ({
            let idxs1 = idxs0.push(pick);
            let placed1 = placed0.update(pick, true);
            let order1 = order0.push(driven[pick]);
            &&& idxs1.no_duplicates()
            &&& forall|m: int| 0 <= m < idxs1.len() ==> 0 <= #[trigger] idxs1[m] < driven.len()
            &&& forall|v: int| 0 <= v < driven.len() ==> (#[trigger] placed1[v] == idxs1.contains(v))
            &&& forall|m: int| 0 <= m < idxs1.len() ==> order1[m] == driven[#[trigger] idxs1[m]]
            &&& forall|m: int, p: UnitId|
                0 <= m < order1.len() && driven.contains(p) && #[trigger] feeds(net, p, order1[m])
                    ==> exists|y: int| 0 <= y < m && order1[y] == p
        }),
{
    let idxs1 = idxs0.push(pick);
    let placed1 = placed0.update(pick, true);
    let order1 = order0.push(driven[pick]);
    assert(!idxs0.contains(pick));
    assert forall|v: int| #[trigger] idxs1.contains(v) implies (idxs0.contains(v) || v
        == pick) by {
        let m = choose|m: int| 0 <= m < idxs1.len() && idxs1[m] == v;
        if m < idxs1.len() - 1 {
            assert(idxs0[m] == v);
        }
    }
    assert forall|v: int| idxs0.contains(v) implies #[trigger] idxs1.contains(v) by {
        let m = choose|m: int| 0 <= m < idxs0.len() && idxs0[m] == v;
        assert(idxs1[m] == v);
    }
    assert(idxs1.contains(pick)) by {
        assert(idxs1[idxs1.len() - 1] == pick);
    }
    assert forall|m1: int, m2: int|
        0 <= m1 < idxs1.len() && 0 <= m2 < idxs1.len() && m1 != m2 implies idxs1[m1]
        != idxs1[m2] by {
        if m1 < idxs1.len() - 1 && m2 < idxs1.len() - 1 {
            assert(idxs0[m1] == idxs1[m1] && idxs0[m2] == idxs1[m2]);
        } else if m2 == idxs1.len() - 1 {
            assert(idxs0.contains(idxs0[m1]));
        } else {
            assert(idxs0.contains(idxs0[m2]));
        }
    }
    assert(idxs1.no_duplicates());
    assert forall|v: int| 0 <= v < driven.len() implies (#[trigger] placed1[v] == idxs1.contains(
        v,
    )) by {
        if v != pick {
            assert(placed1[v] == placed0[v]);
        }
    }
    assert forall|m: int, p: UnitId|
        0 <= m < order1.len() && driven.contains(p) && #[trigger] feeds(net, p, order1[m])
        implies exists|y: int| 0 <= y < m && order1[y] == p by {
        if m < order1.len() - 1 {
            assert(order0[m] == order1[m]);
            let y = choose|y: int| 0 <= y < m && order0[y] == p;
            assert(order1[y] == p);
        } else {
            assert(order1[m] == driven[pick]);
            let xp = choose|xp: int| 0 <= xp < driven.len() && driven[xp] == p;
            assert(placed0[xp]) by {
                if !placed0[xp] {
                    assert(!feeds(net, driven[xp], driven[pick]));
                }
            }
            let y = choose|y: int| 0 <= y < idxs0.len() && idxs0[y] == xp;
            assert(order0[y] == driven[xp]);
            assert(order1[y] == p);
            assert(y < m);
        }
    }
}

/// A completed placement is a permutation of the driven list: it holds
/// exactly the listed units, each exactly once.
proof fn lemma_complete_order(driven: Seq<UnitId>, order: Seq<UnitId>, idxs: Seq<int>)
    requires
        driven.no_duplicates(),
        idxs.no_duplicates(),
        idxs.len() == driven.len(),
        order.len() == idxs.len(),
        forall|m: int| 0 <= m < idxs.len() ==> 0 <= #[trigger] idxs[m] < driven.len(),
        forall|m: int| 0 <= m < idxs.len() ==> order[m] == driven[#[trigger] idxs[m]],
    ensures
        order.no_duplicates(),
        forall|u: UnitId| order.contains(u) <==> driven.contains(u),
{
    broadcast use vstd::seq_lib::seq_to_set_is_finite;
    broadcast use vstd::set::group_set_axioms;

    let n = driven.len() as int;
    idxs.unique_seq_to_set();
    lemma_int_range(0, n);
    assert forall|v: int| 0 <= v < n implies #[trigger] idxs.contains(v) by {
        if !idxs.contains(v) {
            assert(idxs.to_set().subset_of(set_int_range(0, n).remove(v)));
            assert(set_int_range(0, n).remove(v).len() == n - 1);
            lemma_len_subset(idxs.to_set(), set_int_range(0, n).remove(v));
            assert(false);
        }
    }
    assert forall|u: UnitId| #[trigger] order.contains(u) implies driven.contains(u) by {
        let m = choose|m: int| 0 <= m < order.len() && order[m] == u;
        assert(order[m] == driven[idxs[m]]);
    }
    assert forall|u: UnitId| #[trigger] driven.contains(u) implies order.contains(u) by {
        let xp = choose|xp: int| 0 <= xp < n && driven[xp] == u;
        assert(idxs.contains(xp));
        let m = choose|m: int| 0 <= m < idxs.len() && idxs[m] == xp;
        assert(order[m] == u);
    }
    assert forall|m1: int, m2: int|
        0 <= m1 < order.len() && 0 <= m2 < order.len() && m1 != m2 implies order[m1]
        != order[m2] by {
        assert(order[m1] == driven[idxs[m1]]);
        assert(order[m2] == driven[idxs[m2]]);
        assert(idxs[m1] != idxs[m2]);
    }
    assert(order.no_duplicates());
}

/// In an order that respects the wiring, no unit of a feeder-closed set
/// (every member fed by a member) appears in any prefix: its feeder would
/// have to sit still earlier, without end.
proof fn lemma_blocked_not_in_prefix(
    net: NetState,
    driven: Seq<UnitId>,
    s: Set<int>,
    ord: Seq<UnitId>,
    p: int,
)
    requires
        forall|v: int| #[trigger] s.contains(v) ==> 0 <= v < driven.len(),
        forall|v: int|
            #[trigger] s.contains(v) ==> exists|w: int|
                s.contains(w) && feeds(net, driven[w], driven[v]),
        forall|m: int, q: UnitId|
            0 <= m < ord.len() && driven.contains(q) && #[trigger] feeds(net, q, ord[m])
                ==> exists|y: int| 0 <= y < m && ord[y] == q,
        0 <= p <= ord.len(),
    ensures
        forall|y: int, v: int|
            #![trigger ord[y], s.contains(v)]
            0 <= y < p && s.contains(v) ==> ord[y] != driven[v],
    decreases p,
{
    if p > 0 {
        lemma_blocked_not_in_prefix(net, driven, s, ord, p - 1);
        assert forall|y: int, v: int|
            0 <= y < p && s.contains(v) implies ord[y] != driven[v] by {
            if y == p - 1 && s.contains(v) && ord[y] == driven[v] {
                let w = choose|w: int| s.contains(w) && feeds(net, driven[w], driven[v]);
                assert(0 <= w < driven.len());
                assert(driven.contains(driven[w]));
                assert(feeds(net, driven[w], ord[y]));
                let z = choose|z: int| 0 <= z < y && ord[z] == driven[w];
                assert(ord[z] != driven[w]);
            }
        }
    }
}

/// An evaluation order that lists the driven units and respects the
/// wiring excludes every blocked set: the composer's `Cycle` answer and
/// its `Ok` answer can therefore never trade places — a wiring with a
/// blocked set has no valid order at all.
pub proof fn lemma_order_excludes_blocked(net: NetState, driven: Seq<UnitId>, ord: Seq<UnitId>)
    requires
        forall|u: UnitId| ord.contains(u) <==> driven.contains(u),
        forall|m: int, q: UnitId|
            0 <= m < ord.len() && driven.contains(q) && #[trigger] feeds(net, q, ord[m])
                ==> exists|y: int| 0 <= y < m && ord[y] == q,
    ensures
        forall|s: Set<int>| !(#[trigger] blocked_set(net, driven, s)),
{
    assert forall|s: Set<int>| !(#[trigger] blocked_set(net, driven, s)) by {
        if blocked_set(net, driven, s) {
            lemma_blocked_not_in_prefix(net, driven, s, ord, ord.len() as int);
            assert(exists|x: int| s.contains(x)) by {
                if !(exists|x: int| s.contains(x)) {
                    assert(s =~= Set::empty());
                    assert(s.len() == 0);
                }
            }
            let v0 = choose|x: int| s.contains(x);
            assert(0 <= v0 < driven.len());
            assert(driven.contains(driven[v0]));
            assert(ord.contains(driven[v0]));
            let p0 = choose|p: int| 0 <= p < ord.len() && ord[p] == driven[v0];
            assert(ord[p0] != driven[v0]);
        }
    }
}

/// Determinism law: the whole run is a pure function of the starting
/// state, the evaluation order and the step count. Two networks in equal
/// states, driven in the same order for the same number of steps, end in
/// identical states with identical outcomes — there is no hidden
/// randomness in the state machines.
pub proof fn lemma_run_deterministic(a: NetState, b: NetState, order: Seq<UnitId>, steps: int)
    requires
        a == b,
    ensures
        run_spec(a, order, 0, steps) == run_spec(b, order, 0, steps),
{
}

/// A run splits at any intermediate step: running to `steps` is running
/// to `mid` first and then onward. With determinism this gives the
/// round-trip law: re-running the same wiring and seeds passes through
/// identical intermediate states — in particular identical synapse value
/// trajectories — at every step prefix.
pub proof fn lemma_run_split(net: NetState, order: Seq<UnitId>, t: int, mid: int, steps: int)
    requires
        0 <= t <= mid <= steps,
    ensures
        run_spec(net, order, t, steps) == ({
            let first = run_spec(net, order, t, mid);
            if first.1 is Ok {
                run_spec(first.0, order, mid, steps)
            } else {
                first
            }
        }),
    decreases mid - t,
{
    if t < mid {
        let r = run_units_spec(net, order, 0, t);
        if r.1 is Ok {
            lemma_run_split(r.0, order, t + 1, mid, steps);
        }
    }
}

/// Helper for the series-length law, within one time step: a dendrite
/// still to be computed in the remaining order, or already holding
/// `t + 2` values, holds exactly `t + 2` values once the step completes.
proof fn lemma_units_dendrite_len(net: NetState, order: Seq<UnitId>, k: int, t: int, i: usize)
    requires
        0 <= k <= order.len(),
        run_units_spec(net, order, k, t).1 is Ok,
        (exists|m: int| k <= m < order.len() && order[m] == UnitId::Dendrite(i)) || ((i as int)
            < net.dendrites.len() && net.dendrites[i as int].potential.len() == t + 2),
    ensures
        (i as int) < run_units_spec(net, order, k, t).0.dendrites.len(),
        run_units_spec(net, order, k, t).0.dendrites[i as int].potential.len() == t + 2,
    decreases order.len() - k,
{
    if k < order.len() {
        let r = step_unit_spec(net, order[k], t);
        let n2 = r->Ok_0;
        if order[k] == UnitId::Dendrite(i) {
            lemma_units_dendrite_len(n2, order, k + 1, t, i);
        } else {
            if exists|m: int| k <= m < order.len() && order[m] == UnitId::Dendrite(i) {
                let m = choose|m: int| k <= m < order.len() && order[m] == UnitId::Dendrite(i);
                assert(k + 1 <= m < order.len());
                lemma_units_dendrite_len(n2, order, k + 1, t, i);
            } else {
                assert((i as int) < n2.dendrites.len() && n2.dendrites[i as int].potential.len()
                    == t + 2);
                lemma_units_dendrite_len(n2, order, k + 1, t, i);
            }
        }
    }
}

/// Helper for the series-length law, within one time step, for neurons.
proof fn lemma_units_neuron_len(net: NetState, order: Seq<UnitId>, k: int, t: int, i: usize)
    requires
        0 <= k <= order.len(),
        run_units_spec(net, order, k, t).1 is Ok,
        (exists|m: int| k <= m < order.len() && order[m] == UnitId::Neuron(i)) || ((i as int)
            < net.neurons.len() && net.neurons[i as int].potential.len() == t + 2),
    ensures
        (i as int) < run_units_spec(net, order, k, t).0.neurons.len(),
        run_units_spec(net, order, k, t).0.neurons[i as int].potential.len() == t + 2,
    decreases order.len() - k,
{
    if k < order.len() {
        let r = step_unit_spec(net, order[k], t);
        let n2 = r->Ok_0;
        if order[k] == UnitId::Neuron(i) {
            lemma_units_neuron_len(n2, order, k + 1, t, i);
        } else {
            if exists|m: int| k <= m < order.len() && order[m] == UnitId::Neuron(i) {
                let m = choose|m: int| k <= m < order.len() && order[m] == UnitId::Neuron(i);
                assert(k + 1 <= m < order.len());
                lemma_units_neuron_len(n2, order, k + 1, t, i);
            } else {
                assert((i as int) < n2.neurons.len() && n2.neurons[i as int].potential.len() == t
                    + 2);
                lemma_units_neuron_len(n2, order, k + 1, t, i);
            }
        }
    }
}

/// Series-length law for dendrites, over whole runs: after a successful
/// run from step `t` to `steps`, a driven dendrite's series holds
/// `steps + 1` values — the seed plus one appended value per completed
/// step (after `t + 1` completed steps it held `t + 2`).
proof fn lemma_run_dendrite_len(net: NetState, order: Seq<UnitId>, t: int, steps: int, i: usize)
    requires
        0 <= t < steps,
        run_spec(net, order, t, steps).1 is Ok,
        order.contains(UnitId::Dendrite(i)),
    ensures
        (i as int) < run_spec(net, order, t, steps).0.dendrites.len(),
        run_spec(net, order, t, steps).0.dendrites[i as int].potential.len() == steps + 1,
    decreases steps - t,
{
    let r = run_units_spec(net, order, 0, t);
    assert(exists|m: int| 0 <= m < order.len() && order[m] == UnitId::Dendrite(i));
    lemma_units_dendrite_len(net, order, 0, t, i);
    if t + 1 < steps {
        lemma_run_dendrite_len(r.0, order, t + 1, steps, i);
    }
}

/// Series-length law for neurons, over whole runs.
proof fn lemma_run_neuron_len(net: NetState, order: Seq<UnitId>, t: int, steps: int, i: usize)
    requires
        0 <= t < steps,
        run_spec(net, order, t, steps).1 is Ok,
        order.contains(UnitId::Neuron(i)),
    ensures
        (i as int) < run_spec(net, order, t, steps).0.neurons.len(),
        run_spec(net, order, t, steps).0.neurons[i as int].potential.len() == steps + 1,
    decreases steps - t,
{
    let r = run_units_spec(net, order, 0, t);
    assert(exists|m: int| 0 <= m < order.len() && order[m] == UnitId::Neuron(i));
    lemma_units_neuron_len(net, order, 0, t, i);
    if t + 1 < steps {
        lemma_run_neuron_len(r.0, order, t + 1, steps, i);
    }
}

/// Series-length law: after a successful run of `steps` completed steps
/// (`steps` at least one), every driven dendrite's and neuron's potential
/// series holds exactly `steps + 1` values: the seed plus one value per
/// completed step. Equivalently, after `t + 1` completed steps a series
/// holds `t + 2` values.
pub proof fn lemma_potential_series_length(
    net: NetState,
    order: Seq<UnitId>,
    steps: int,
    i: usize,
)
    requires
        0 < steps,
        run_spec(net, order, 0, steps).1 is Ok,
    ensures
        order.contains(UnitId::Dendrite(i)) ==> (i as int) < run_spec(
            net,
            order,
            0,
            steps,
        ).0.dendrites.len() && run_spec(net, order, 0, steps).0.dendrites[i as int].potential.len()
            == steps + 1,
        order.contains(UnitId::Neuron(i)) ==> (i as int) < run_spec(
            net,
            order,
            0,
            steps,
        ).0.neurons.len() && run_spec(net, order, 0, steps).0.neurons[i as int].potential.len()
            == steps + 1,
{
    if order.contains(UnitId::Dendrite(i)) {
        lemma_run_dendrite_len(net, order, 0, steps, i);
    }
    if order.contains(UnitId::Neuron(i)) {
        lemma_run_neuron_len(net, order, 0, steps, i);
    }
}

} // verus!
