// Unit-level behavior: construction defaults, the dendrite state machine,
// seeding, and the synapse saturation bound.

use neurosim::model::{FIRING_THRESHOLD, REST_POTENTIAL, SPIKE_ONSET, SYNAPSE_ONE};
use neurosim::network::{Dendrite, Network, Neuron, Synapse};

#[test]
fn fresh_units_rest() {
    let mut net = Network::new();
    let d = Dendrite::new(&mut net);
    let s = Synapse::new(&mut net);
    let n = Neuron::new(&mut net);
    assert_eq!(d.unit, 0);
    assert_eq!(s.unit, 0);
    assert_eq!(n.unit, 0);
    assert_eq!(net.dendrites[0].potential, vec![REST_POTENTIAL]);
    assert_eq!(net.dendrites[0].threshold, FIRING_THRESHOLD);
    assert!(!net.dendrites[0].activated);
    assert!(!net.dendrites[0].refract);
    assert_eq!(net.synapses[0].weight, 1);
    assert_eq!(net.synapses[0].value, 0);
    assert_eq!(net.neurons[0].potential, vec![REST_POTENTIAL]);
}

#[test]
fn dendrite_decay_no_spike() {
    // A dendrite with no inputs, seeded at the resting potential, stepped
    // five times with zero external input: no spike, and the periodic
    // leak pattern (subtract on steps divisible by three, else add).
    let mut net = Network::new();
    let d = Dendrite::new(&mut net);
    d.seed(&mut net, vec![-700]);
    for t in 0..5 {
        d.compute(&mut net, t);
        assert!(!net.dendrites[0].activated);
        assert!(!net.dendrites[0].refract);
    }
    assert_eq!(net.dendrites[0].potential, vec![-700, -670, -640, -610, -670, -640]);
}

#[test]
fn threshold_crossing_spikes() {
    // A potential above threshold at the read makes the dendrite
    // activate: the spike-onset value is recorded at the very next index,
    // then the peak is held, the after-hyperpolarization drop applies,
    // and the unit passes through the refractory phase back to rest.
    let mut net = Network::new();
    let d = Dendrite::new(&mut net);
    d.seed(&mut net, vec![-540]);
    for t in 0..6 {
        d.compute(&mut net, t);
        assert!(!(net.dendrites[0].activated && net.dendrites[0].refract));
    }
    assert_eq!(net.dendrites[0].potential[1], SPIKE_ONSET);
    assert_eq!(
        net.dendrites[0].potential,
        vec![-540, -550, 400, -200, -800, -800, -700]
    );
    assert_eq!(net.dendrites[0].activation_time, 0);
    assert_eq!(net.dendrites[0].refraction_time, 4);
    assert!(!net.dendrites[0].activated);
    assert!(!net.dendrites[0].refract);
}

#[test]
fn seed_resets_phase() {
    let mut net = Network::new();
    let d = Dendrite::new(&mut net);
    d.seed(&mut net, vec![-540]);
    d.compute(&mut net, 0);
    assert!(net.dendrites[0].activated);
    d.seed(&mut net, vec![-700, -690]);
    assert!(!net.dendrites[0].activated);
    assert!(!net.dendrites[0].refract);
    assert_eq!(net.dendrites[0].potential, vec![-700, -690]);
}

#[test]
fn synapse_value_saturates() {
    // A huge upstream potential drives the synapse deep into saturation;
    // the value stays strictly inside the open interval.
    let mut net = Network::new();
    let d = Dendrite::new(&mut net);
    d.seed(&mut net, vec![500_000_000]);
    let s = Synapse::new(&mut net);
    s.attach_input(&mut net, &d);
    s.compute(&mut net, 0);
    let v = net.synapses[0].value;
    assert!(-SYNAPSE_ONE < v && v < SYNAPSE_ONE);
    assert_eq!(v, SYNAPSE_ONE - 1);
}

#[test]
fn synapse_small_signal() {
    // A modest signal: raw is 1000 per tenth, the saturation maps
    // y to y / (1 + |y|) over millionths.
    let mut net = Network::new();
    let d = Dendrite::new(&mut net);
    d.seed(&mut net, vec![5000]);
    let s = Synapse::new(&mut net);
    s.attach_input(&mut net, &d);
    s.compute(&mut net, 0);
    // raw = 5_000_000; q = 10^12 / (10^6 + 5 * 10^6) = 166_666
    assert_eq!(net.synapses[0].value, 833_334);
}

#[test]
fn synapse_sign_follows_smoothing() {
    // With a zero input the smoothed value flips sign each step, decaying
    // in magnitude, and never leaves the open interval.
    let mut net = Network::new();
    let d = Dendrite::new(&mut net);
    d.seed(&mut net, vec![5000, 0, 0, 0]);
    let s = Synapse::new(&mut net);
    s.attach_input(&mut net, &d);
    s.compute(&mut net, 0);
    let v1 = net.synapses[0].value;
    assert!(v1 > 0);
    s.compute(&mut net, 1);
    let v2 = net.synapses[0].value;
    assert!(v2 < 0);
    s.compute(&mut net, 2);
    let v3 = net.synapses[0].value;
    assert!(v3 > 0);
    assert!(v3.abs() < v1.abs());
    assert!(v1.abs() < SYNAPSE_ONE && v2.abs() < SYNAPSE_ONE && v3.abs() < SYNAPSE_ONE);
}

#[test]
fn neuron_passes_through_summed_input() {
    // Below threshold the neuron's new potential is the summed input of
    // its dendrites, not a leaky integration.
    let mut net = Network::new();
    let d1 = Dendrite::new(&mut net);
    let d2 = Dendrite::new(&mut net);
    d1.seed(&mut net, vec![-400]);
    d2.seed(&mut net, vec![-300]);
    let n = Neuron::new(&mut net);
    n.attach_input(&mut net, &d1);
    n.attach_input(&mut net, &d2);
    n.compute(&mut net, 0);
    // -400 + -300 = -700, below the -550 threshold: passed through.
    assert!(!net.neurons[0].activated);
    assert_eq!(net.neurons[0].potential, vec![-700, -700]);
}

#[test]
fn neuron_activates_on_summed_input() {
    let mut net = Network::new();
    let d1 = Dendrite::new(&mut net);
    let d2 = Dendrite::new(&mut net);
    d1.seed(&mut net, vec![-200]);
    d2.seed(&mut net, vec![-300]);
    let n = Neuron::new(&mut net);
    n.attach_input(&mut net, &d1);
    n.attach_input(&mut net, &d2);
    n.compute(&mut net, 0);
    // -200 + -300 = -500 exceeds the -550 threshold: activation.
    assert!(net.neurons[0].activated);
    assert_eq!(net.neurons[0].activation_time, 0);
    assert_eq!(net.neurons[0].potential, vec![-700, SPIKE_ONSET]);
}

#[test]
fn plot_data_lists_inputs_then_own() {
    let mut net = Network::new();
    let d1 = Dendrite::new(&mut net);
    let d2 = Dendrite::new(&mut net);
    d1.seed(&mut net, vec![1, 2, 3]);
    d2.seed(&mut net, vec![4, 5]);
    let n = Neuron::new(&mut net);
    n.attach_input(&mut net, &d1);
    n.attach_input(&mut net, &d2);
    let data = n.plot_data(&net);
    assert_eq!(data.len(), 3);
    assert_eq!(data[0], vec![1, 2, 3]);
    assert_eq!(data[1], vec![4, 5]);
    assert_eq!(data[2], vec![-700]);
}
