// Determinism and round-trip behavior: identical wiring and seeds give
// bit-identical potential series and synapse value trajectories.

use neurosim::network::{Dendrite, Network, Neuron, Synapse, UnitId};

struct Wired {
    net: Network,
    sources: Vec<Dendrite>,
    synapses: Vec<Synapse>,
    relays: Vec<Dendrite>,
    neuron: Neuron,
}

fn build() -> Wired {
    let mut net = Network::new();
    let d1 = Dendrite::new(&mut net);
    let d2 = Dendrite::new(&mut net);
    let mut train1: Vec<i64> = Vec::new();
    let mut train2: Vec<i64> = Vec::new();
    for t in 0..60i64 {
        train1.push(if t % 7 == 0 { 40 } else { -20 });
        train2.push(if t % 11 == 0 { 90 } else { 0 });
    }
    d1.seed(&mut net, train1);
    d2.seed(&mut net, train2);
    let s1 = Synapse::new(&mut net);
    let s2 = Synapse::new(&mut net);
    s1.attach_input(&mut net, &d1);
    s2.attach_input(&mut net, &d2);
    let d3 = Dendrite::new(&mut net);
    let d4 = Dendrite::new(&mut net);
    d3.attach_input(&mut net, &s1);
    d4.attach_input(&mut net, &s2);
    let n = Neuron::new(&mut net);
    n.attach_input(&mut net, &d3);
    n.attach_input(&mut net, &d4);
    Wired { net, sources: vec![d1, d2], synapses: vec![s1, s2], relays: vec![d3, d4], neuron: n }
}

#[test]
fn identical_runs_bit_identical() {
    let mut a = build();
    let mut b = build();
    let driven = vec![
        UnitId::Synapse(a.synapses[0].unit),
        UnitId::Synapse(a.synapses[1].unit),
        UnitId::Dendrite(a.relays[0].unit),
        UnitId::Dendrite(a.relays[1].unit),
        UnitId::Neuron(a.neuron.unit),
    ];
    let order = a.net.evaluation_order(&driven).expect("acyclic");
    let order_b = b.net.evaluation_order(&driven).expect("acyclic");
    assert_eq!(order, order_b);
    assert_eq!(a.net.run(&order, 60), Ok(()));
    assert_eq!(b.net.run(&order, 60), Ok(()));
    for i in 0..a.net.dendrites.len() {
        assert_eq!(a.net.dendrites[i].potential, b.net.dendrites[i].potential);
    }
    assert_eq!(
        a.net.neurons[a.neuron.unit].potential,
        b.net.neurons[b.neuron.unit].potential
    );
    let _ = (&a.sources, &b.sources);
}

#[test]
fn synapse_reads_no_lookahead() {
    // Two networks whose source series agree at index t but differ in
    // every later entry give the synapse the same value at step t: the
    // synapse never reads ahead of the step being evaluated.
    let mut net1 = Network::new();
    let d1 = Dendrite::new(&mut net1);
    d1.seed(&mut net1, vec![250, 9_000, -9_000, 77]);
    let s1 = Synapse::new(&mut net1);
    s1.attach_input(&mut net1, &d1);

    let mut net2 = Network::new();
    let d2 = Dendrite::new(&mut net2);
    d2.seed(&mut net2, vec![250]);
    let s2 = Synapse::new(&mut net2);
    s2.attach_input(&mut net2, &d2);

    s1.compute(&mut net1, 0);
    s2.compute(&mut net2, 0);
    assert_eq!(net1.synapses[0].value, net2.synapses[0].value);
}

#[test]
fn rerun_synapse_trajectory() {
    // Stepping by hand and recording every synapse value after every
    // step: a second, independent run retraces the same trajectory.
    let mut traces: Vec<Vec<i64>> = Vec::new();
    for _ in 0..2 {
        let mut w = build();
        let mut trace: Vec<i64> = Vec::new();
        for t in 0..60usize {
            w.synapses[0].compute(&mut w.net, t);
            w.synapses[1].compute(&mut w.net, t);
            w.relays[0].compute(&mut w.net, t);
            w.relays[1].compute(&mut w.net, t);
            w.neuron.compute(&mut w.net, t);
            trace.push(w.net.synapses[0].value);
            trace.push(w.net.synapses[1].value);
        }
        traces.push(trace);
    }
    assert_eq!(traces[0], traces[1]);
}
