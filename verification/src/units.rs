//! Executable unit records and their views onto the ghost model.

use vstd::prelude::*;

use crate::model::{lemma_saturate_bounds, saturate, SynapseState, UnitState, SYNAPSE_ONE};

verus! {

/// State record of a dendrite: the canonical spiking/refractory unit.
/// `inputs` holds ids of synapses in the owning network's arena.
pub struct Dunit {
    pub inputs: Vec<usize>,
    pub potential: Vec<i64>,
    pub threshold: i64,
    pub refract: bool,
    pub activated: bool,
    pub refraction_time: usize,
    pub activation_time: usize,
}

/// State record of a synapse: a per-step transmission unit. `inputs`
/// holds ids of dendrites in the owning network's arena.
pub struct Sunit {
    pub inputs: Vec<usize>,
    pub weight: i64,
    pub value: i64,
    pub ei_type: i32,
}

/// State record of a neuron: a spiking/refractory unit that integrates
/// dendrite potentials directly. `inputs` holds ids of dendrites.
pub struct Nunit {
    pub inputs: Vec<usize>,
    pub potential: Vec<i64>,
    pub threshold: i64,
    pub refract: bool,
    pub activated: bool,
    pub refraction_time: usize,
    pub activation_time: usize,
}

impl View for Dunit {
    type V = UnitState;

    open spec fn view(&self) -> UnitState {
        UnitState {
            inputs: self.inputs@.map_values(|x: usize| x as int),
            potential: self.potential@.map_values(|x: i64| x as int),
            threshold: self.threshold as int,
            activated: self.activated,
            refract: self.refract,
            activation_time: self.activation_time as int,
            refraction_time: self.refraction_time as int,
        }
    }
}

impl View for Nunit {
    type V = UnitState;

    open spec fn view(&self) -> UnitState {
        UnitState {
            inputs: self.inputs@.map_values(|x: usize| x as int),
            potential: self.potential@.map_values(|x: i64| x as int),
            threshold: self.threshold as int,
            activated: self.activated,
            refract: self.refract,
            activation_time: self.activation_time as int,
            refraction_time: self.refraction_time as int,
        }
    }
}

impl View for Sunit {
    type V = SynapseState;

    open spec fn view(&self) -> SynapseState {
        SynapseState {
            inputs: self.inputs@.map_values(|x: usize| x as int),
            weight: self.weight as int,
            value: self.value as int,
            ei_type: self.ei_type as int,
        }
    }
}

/// The saturating nonlinearity over `i64` millionths; the executable form
/// of `saturate`.
pub fn saturate_value(y: i64) -> (r: i64)
    requires
        -(i64::MAX - SYNAPSE_ONE) <= y <= i64::MAX - SYNAPSE_ONE,
    ensures
        r as int == saturate(y as int),
        -SYNAPSE_ONE < r < SYNAPSE_ONE,
{
    proof {
        lemma_saturate_bounds(y as int);
    }
    if y == 0 {
        0
    } else {
        let a: i64 = if y > 0 { y } else { -y };
        let q: i64 = (SYNAPSE_ONE * SYNAPSE_ONE) / (SYNAPSE_ONE + a);
        let m: i64 = if q == 0 { SYNAPSE_ONE - 1 } else { SYNAPSE_ONE - q };
        if y > 0 { m } else { -m }
    }
}

} // verus!
