// The composer: evaluation order over the wiring, cycle detection, the
// checked run loop and its error reporting, and series lengths.

use neurosim::network::{Dendrite, Network, Neuron, SimError, Synapse, UnitId, WiringError};

fn position(order: &[UnitId], u: UnitId) -> usize {
    order.iter().position(|&x| x == u).expect("unit missing from order")
}

#[test]
fn composer_orders_layered_network() {
    let mut net = Network::new();
    let d1 = Dendrite::new(&mut net);
    let d2 = Dendrite::new(&mut net);
    let s1 = Synapse::new(&mut net);
    let s2 = Synapse::new(&mut net);
    s1.attach_input(&mut net, &d1);
    s2.attach_input(&mut net, &d2);
    let d3 = Dendrite::new(&mut net);
    let d4 = Dendrite::new(&mut net);
    d3.attach_input(&mut net, &s1);
    d4.attach_input(&mut net, &s2);
    let n = Neuron::new(&mut net);
    n.attach_input(&mut net, &d3);
    n.attach_input(&mut net, &d4);
    // The driven units, deliberately scrambled; the sources are seeded
    // separately and not driven.
    let driven = vec![
        UnitId::Neuron(n.unit),
        UnitId::Dendrite(d3.unit),
        UnitId::Synapse(s1.unit),
        UnitId::Dendrite(d4.unit),
        UnitId::Synapse(s2.unit),
    ];
    let order = net.evaluation_order(&driven).expect("wiring is acyclic");
    assert_eq!(order.len(), 5);
    assert!(position(&order, UnitId::Synapse(s1.unit)) < position(&order, UnitId::Dendrite(d3.unit)));
    assert!(position(&order, UnitId::Synapse(s2.unit)) < position(&order, UnitId::Dendrite(d4.unit)));
    assert!(position(&order, UnitId::Dendrite(d3.unit)) < position(&order, UnitId::Neuron(n.unit)));
    assert!(position(&order, UnitId::Dendrite(d4.unit)) < position(&order, UnitId::Neuron(n.unit)));
}

#[test]
fn composer_detects_cycle() {
    let mut net = Network::new();
    let d = Dendrite::new(&mut net);
    let s = Synapse::new(&mut net);
    s.attach_input(&mut net, &d);
    d.attach_input(&mut net, &s);
    let driven = vec![UnitId::Dendrite(d.unit), UnitId::Synapse(s.unit)];
    assert_eq!(net.evaluation_order(&driven), Err(WiringError::Cycle));
}

#[test]
fn composer_rejects_duplicate() {
    let mut net = Network::new();
    let d = Dendrite::new(&mut net);
    let driven = vec![UnitId::Dendrite(d.unit), UnitId::Dendrite(d.unit)];
    assert_eq!(net.evaluation_order(&driven), Err(WiringError::DuplicateUnit));
}

#[test]
fn composer_rejects_invalid_id() {
    let mut net = Network::new();
    let _ = Dendrite::new(&mut net);
    let driven = vec![UnitId::Dendrite(7)];
    assert_eq!(net.evaluation_order(&driven), Err(WiringError::InvalidUnit));
}

#[test]
fn run_grows_series_one_per_step() {
    // One seed value plus one appended value per completed step: after
    // t + 1 completed steps the series holds t + 2 values.
    let mut net = Network::new();
    let d = Dendrite::new(&mut net);
    let order = vec![UnitId::Dendrite(d.unit)];
    for steps_done in 0..10usize {
        assert_eq!(net.dendrites[0].potential.len(), steps_done + 1);
        d.compute(&mut net, steps_done);
        assert_eq!(net.dendrites[0].potential.len(), steps_done + 2);
    }
    let mut net2 = Network::new();
    let d2 = Dendrite::new(&mut net2);
    assert_eq!(net2.run(&order, 10), Ok(()));
    assert_eq!(net2.dendrites[d2.unit].potential.len(), 11);
}

#[test]
fn run_reports_misaligned_stimulus() {
    // A seeded source shorter than the run: the shortfall is fatal the
    // moment it is reached.
    let mut net = Network::new();
    let d = Dendrite::new(&mut net);
    d.seed(&mut net, vec![100, 200, 300]);
    let s = Synapse::new(&mut net);
    s.attach_input(&mut net, &d);
    let order = vec![UnitId::Synapse(s.unit)];
    assert_eq!(net.run(&order, 5), Err(SimError::MisalignedStimulus));
}

#[test]
fn run_reports_out_of_order() {
    // A dendrite whose series already holds two values cannot be
    // computed for step zero.
    let mut net = Network::new();
    let d = Dendrite::new(&mut net);
    d.seed(&mut net, vec![-700, -690]);
    let order = vec![UnitId::Dendrite(d.unit)];
    assert_eq!(net.run(&order, 1), Err(SimError::OutOfOrder));
}

#[test]
fn run_reports_invalid_unit() {
    let mut net = Network::new();
    let order = vec![UnitId::Neuron(3)];
    assert_eq!(net.run(&order, 1), Err(SimError::InvalidUnit));
}

#[test]
fn run_reports_potential_out_of_range() {
    // A seed outside the guarded band aborts before any arithmetic
    // could overflow.
    let mut net = Network::new();
    let d = Dendrite::new(&mut net);
    d.seed(&mut net, vec![999_999_500]);
    let order = vec![UnitId::Dendrite(d.unit)];
    assert_eq!(net.run(&order, 1), Err(SimError::PotentialOutOfRange));
}

#[test]
fn layered_network_activates_neuron() {
    // Two sources seeded with disjoint pulse trains (every 10th versus
    // every 20th step) feed two synapses, two relay dendrites, and one
    // neuron, for 100 steps. The neuron must activate at least once, at
    // a step where the combined relay potentials exceed its threshold.
    let mut net = Network::new();
    let d1 = Dendrite::new(&mut net);
    let d2 = Dendrite::new(&mut net);
    let mut train1: Vec<i64> = Vec::new();
    let mut train2: Vec<i64> = Vec::new();
    for t in 0..100i64 {
        train1.push(if t % 10 == 0 && t != 0 { 6 } else { 0 });
        train2.push(if t % 20 == 0 && t != 0 { 6 } else { 0 });
    }
    d1.seed(&mut net, train1);
    d2.seed(&mut net, train2);
    let s1 = Synapse::new(&mut net);
    let s2 = Synapse::new(&mut net);
    s1.attach_input(&mut net, &d1);
    s2.attach_input(&mut net, &d2);
    let d3 = Dendrite::new(&mut net);
    let d4 = Dendrite::new(&mut net);
    d3.attach_input(&mut net, &s1);
    d4.attach_input(&mut net, &s2);
    let n = Neuron::new(&mut net);
    n.attach_input(&mut net, &d3);
    n.attach_input(&mut net, &d4);

    let mut activations: Vec<usize> = Vec::new();
    let mut was_activated = false;
    for t in 0..100usize {
        s1.compute(&mut net, t);
        s2.compute(&mut net, t);
        d3.compute(&mut net, t);
        d4.compute(&mut net, t);
        let sum_before = net.dendrites[d3.unit].potential[t] + net.dendrites[d4.unit].potential[t];
        n.compute(&mut net, t);
        let now_activated = net.neurons[n.unit].activated;
        if now_activated && !was_activated {
            assert_eq!(net.neurons[n.unit].activation_time, t);
            assert!(sum_before > net.neurons[n.unit].threshold);
            activations.push(t);
        }
        was_activated = now_activated;
        assert!(!(net.neurons[n.unit].activated && net.neurons[n.unit].refract));
    }
    assert!(!activations.is_empty());
    assert_eq!(net.neurons[n.unit].potential.len(), 101);
}
