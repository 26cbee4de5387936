use piano::dwgs::{DWGFilters, DWGNode, DWGs, DWG};
use piano::filter::Filter;
use piano::ring_buffer::RingBuffer;

fn history(buf: &RingBuffer<f64>) -> Vec<f64> {
    let mut out = vec![];
    let mut iter = buf.iter();
    while let Some(x) = iter.next() {
        out.push(*x);
    }
    out
}

fn gain(g: f64, name: &str) -> Filter<f64> {
    Filter::new(0, vec![1.0], vec![g], String::from(name))
}

fn filters(dispersion: &[f64], lowpass: f64, fracdelay: f64) -> DWGFilters<f64> {
    DWGFilters {
        dispersion: dispersion.iter().map(|g| gain(*g, "dispersion")).collect(),
        lowpass: gain(lowpass, "lowpass"),
        fracdelay: gain(fracdelay, "fracdelay"),
    }
}

#[test]
fn a_new_node_is_at_rest() {
    let node = DWGNode::new(3.5f64);
    assert_eq!(node.z, 3.5);
    assert_eq!(node.load, 0.0);
    assert_eq!(node.a0, 0.0);
    assert_eq!(node.a1, 0.0);
}

#[test]
fn a_new_element_brings_its_two_nodes() {
    let mut nodes = vec![DWGNode::new(1.0f64)];
    let e = DWG::new(2.0, 3, 4, true, &mut nodes);
    assert_eq!(nodes.len(), 3);
    assert_eq!((e.l, e.r), (1, 2));
    assert_eq!(nodes[1].z, 2.0);
    assert_eq!(nodes[2].z, 2.0);
    assert_eq!((e.del1, e.del2), (3, 4));
    assert!(e.commute);
    assert!(e.cl.is_empty() && e.cr.is_empty() && e.pl.is_empty() && e.pr.is_empty());
    assert_eq!(history(&e.d0), vec![0.0; 3]);
    assert_eq!(history(&e.d1), vec![0.0; 4]);
}

#[test]
fn connections_are_kept_in_order() {
    let mut nodes = vec![];
    let mut e = DWG::new(1.0f64, 1, 1, false, &mut nodes);
    e.connect_left(7);
    e.connect_left_with_pol(8, 1);
    e.connect_right_with_pol(9, 2);
    e.connect_right(10);
    assert_eq!(e.cl, vec![7, 8]);
    assert_eq!(e.pl, vec![0, 1]);
    assert_eq!(e.cr, vec![9, 10]);
    assert_eq!(e.pr, vec![2, 0]);
}

#[test]
fn init_shares_each_junction_by_impedance() {
    let mut nodes = vec![];
    let mut e = DWG::new(2.0f64, 1, 1, false, &mut nodes);
    let other = DWG::new(6.0f64, 1, 1, false, &mut nodes);
    let third = DWG::new(8.0f64, 1, 1, false, &mut nodes);
    e.connect_left(other.r);
    e.connect_right(other.l);
    e.connect_right(third.l);
    e.init(&nodes);
    assert_eq!(e.alphalthis, 2.0 * 2.0 / (2.0 + 6.0));
    assert_eq!(e.alphal, vec![2.0 * 6.0 / (2.0 + 6.0)]);
    assert_eq!(e.alpharthis, 2.0 * 2.0 / (2.0 + 6.0 + 8.0));
    assert_eq!(e.alphar, vec![2.0 * 6.0 / 16.0, 2.0 * 8.0 / 16.0]);
    // A second call gives the same shares again.
    e.init(&nodes);
    assert_eq!(e.alphar, vec![0.75, 1.0]);
}

#[test]
fn do_delay_moves_the_waves_through_the_lines() {
    let mut nodes = vec![];
    let mut e = DWG::new(1.0f64, 2, 3, false, &mut nodes);
    nodes[e.r].a0 = 5.0;
    nodes[e.l].a1 = 7.0;
    e.do_delay(&mut nodes);
    assert_eq!(history(&e.d0), vec![5.0, 0.0]);
    assert_eq!(history(&e.d1), vec![7.0, 0.0, 0.0]);
    assert_eq!((nodes[e.l].a0, nodes[e.r].a1), (0.0, 0.0));
    nodes[e.r].a0 = 0.0;
    nodes[e.l].a1 = 0.0;
    e.do_delay(&mut nodes);
    assert_eq!((nodes[e.l].a0, nodes[e.r].a1), (0.0, 0.0));
    e.do_delay(&mut nodes);
    // Two samples to the left, three to the right.
    assert_eq!((nodes[e.l].a0, nodes[e.r].a1), (5.0, 0.0));
    e.do_delay(&mut nodes);
    assert_eq!((nodes[e.l].a0, nodes[e.r].a1), (0.0, 7.0));
}

#[test]
fn do_load_gathers_loads_and_shares() {
    let mut nodes = vec![];
    let mut e = DWG::new(2.0f64, 1, 1, false, &mut nodes);
    let other = DWG::new(6.0f64, 1, 1, false, &mut nodes);
    e.connect_right(other.l);
    e.connect_right_with_pol(other.r, 1);
    e.init(&nodes);
    nodes[e.r].a1 = 3.0;
    nodes[other.l].a0 = 10.0;
    nodes[other.l].a1 = 20.0;
    nodes[other.l].load = 0.5;
    nodes[other.r].a0 = 30.0;
    nodes[other.r].a1 = 40.0;
    nodes[other.r].load = 0.25;
    e.do_load(&nodes);
    assert_eq!(e.loadl, 0.0);
    let (own, first, second) = (e.alpharthis, e.alphar[0], e.alphar[1]);
    assert_eq!(e.loadr, own * 3.0 + 0.5 + first * 10.0 + 0.25 + second * 40.0);

    let mut mirror = DWG::new(2.0f64, 1, 1, false, &mut nodes);
    mirror.connect_left(other.l);
    mirror.connect_left_with_pol(other.r, 1);
    mirror.init(&nodes);
    nodes[mirror.l].a0 = 3.0;
    mirror.do_load(&nodes);
    assert_eq!(mirror.loadr, 0.0);
    let (own, first, second) = (mirror.alphalthis, mirror.alphal[0], mirror.alphal[1]);
    assert_eq!(mirror.loadl, own * 3.0 + 0.5 + first * 20.0 + 0.25 + second * 30.0);
}

#[test]
fn update_filters_only_the_element_that_carries_them() {
    let mut nodes = vec![];
    let mut plain = DWG::new(1.0f64, 1, 1, false, &mut nodes);
    let mut carrying = DWG::new(1.0f64, 1, 1, true, &mut nodes);
    let mut f = filters(&[2.0, 3.0], 5.0, 7.0);
    for e in [&mut plain, &mut carrying] {
        e.loadl = 10.0;
        e.loadr = 20.0;
        nodes[e.l].a0 = 1.0;
        nodes[e.r].a1 = 2.0;
    }
    plain.update(&mut nodes, &mut f);
    assert_eq!(nodes[plain.l].a1, 9.0);
    assert_eq!(nodes[plain.r].a0, 18.0);
    carrying.update(&mut nodes, &mut f);
    assert_eq!(nodes[carrying.l].a1, 9.0 * 2.0 * 3.0);
    assert_eq!(nodes[carrying.r].a0, 18.0 * 5.0 * 7.0);
    assert_eq!(history(&f.dispersion[0].x), vec![9.0]);
    assert_eq!(history(&f.dispersion[1].x), vec![18.0]);
    assert_eq!(history(&f.lowpass.y), vec![90.0]);
    assert_eq!(history(&f.fracdelay.y), vec![630.0]);
}

#[test]
fn a_new_string_is_wired_left_to_right_to_board() {
    let s = DWGs::wire(2, 3, 4, filters(&[1.0], 1.0, 1.0), 10.0, 4000.0, 0.0);
    assert_eq!(s.nodes.len(), 8);
    let z: Vec<f64> = s.nodes.iter().map(|n| n.z).collect();
    assert_eq!(z, vec![10.0, 10.0, 10.0, 10.0, 4000.0, 4000.0, 0.0, 0.0]);
    assert_eq!((s.left.del1, s.left.del2), (2, 2));
    assert_eq!((s.right.del1, s.right.del2), (3, 4));
    assert_eq!(s.left.cr, vec![2, 6]);
    assert_eq!(s.right.cl, vec![1, 6]);
    assert_eq!(s.right.cr, vec![4]);
    assert_eq!(s.board.cl, vec![3]);
    assert_eq!(s.hammer.cl, vec![1, 2]);
    assert!(s.left.cl.is_empty() && s.board.cr.is_empty() && s.hammer.cr.is_empty());
    assert!(!s.left.commute && s.right.commute && !s.board.commute && !s.hammer.commute);
    assert_eq!(s.left.alpharthis, 2.0 * 10.0 / (10.0 + 10.0 + 0.0));
    assert_eq!(s.left.alphar, vec![1.0, 0.0]);
    assert_eq!(s.right.alphalthis, 1.0);
    assert_eq!(s.right.alphal, vec![1.0, 0.0]);
    assert_eq!(s.right.alpharthis, 2.0 * 10.0 / 4010.0);
    assert_eq!(s.right.alphar, vec![2.0 * 4000.0 / 4010.0]);
    assert_eq!(s.board.alphalthis, 2.0 * 4000.0 / 4010.0);
    assert_eq!(s.board.alphal, vec![2.0 * 10.0 / 4010.0]);
}

#[test]
fn a_struck_string_carries_the_wave_to_the_bridge_and_back() {
    let (del1, del2, del3) = (2usize, 3usize, 4usize);
    let mut s = DWGs::wire(del1, del2, del3, filters(&[1.0], 1.0, 1.0), 10.0, 4000.0, 0.0);
    assert_eq!(s.input_velocity(), 0.0);

    // One sample: the hammer lays 0.5 on both waveguides at the striking point.
    assert_eq!(s.go_hammer(0.5), 0.0);
    assert_eq!(s.nodes[6].load, 0.5);
    assert_eq!(s.go_soundboard(0.0), 0.0);
    assert_eq!(s.nodes[1].a0, 0.5);
    assert_eq!(s.nodes[2].a1, 0.5);

    let mut at_bridge = vec![];
    let mut at_hammer = vec![];
    for _ in 0..12 {
        at_bridge.push(s.go_hammer(0.0));
        at_hammer.push(s.input_velocity());
        s.go_soundboard(0.0);
    }
    // The wave to the right is read at the bridge once the line of `del3`
    // samples has handed it on.
    assert_eq!(at_bridge[..del3], vec![0.0; del3][..]);
    assert_eq!(at_bridge[del3], 0.5);
    // The wave to the left comes back from the agraffe turned over, after the
    // line of `del1` samples was passed twice.
    assert_eq!(at_hammer[..2 * del1 + 1], vec![0.0; 2 * del1 + 1][..]);
    assert_eq!(at_hammer[2 * del1 + 1], -0.5);
    // It goes on through the striking point and reaches the bridge as well.
    assert_eq!(at_bridge[2 * del1 + 2 + del3], -0.5);
    let _ = del2;
}

#[test]
fn the_bridge_scatters_by_impedance() {
    let mut s = DWGs::wire(1, 1, 1, filters(&[], 1.0, 1.0), 10.0, 30.0, 0.0);
    s.go_hammer(0.0);
    s.nodes[3].a1 = 2.0;
    let sent = s.go_soundboard(0.25);
    let own_board = 2.0 * 30.0 / 40.0;
    let from_string = 2.0 * 10.0 / 40.0;
    // The board's own incoming wave is at rest; the string brings 2.0.
    assert_eq!(s.board.loadl, own_board * 0.0 + 0.0 + from_string * 2.0);
    assert_eq!(sent, s.board.loadl - 0.0);
    assert_eq!(s.nodes[4].load, 0.25);
    // Back into the string: the board's load and its own share, less what came.
    let own_string = 2.0 * 10.0 / 40.0;
    assert_eq!(s.right.loadr, own_string * 2.0 + 0.25 + own_board * 0.0);
    assert_eq!(s.nodes[3].a0, s.right.loadr - 2.0);
}

#[test]
fn the_velocity_under_the_hammer_is_the_sum_of_both_waves() {
    let mut s = DWGs::wire(1, 1, 1, filters(&[], 1.0, 1.0), 10.0, 30.0, 0.0);
    s.nodes[2].a0 = 0.75;
    s.nodes[1].a1 = -0.25;
    s.nodes[2].a1 = 100.0;
    s.nodes[1].a0 = 100.0;
    assert_eq!(s.input_velocity(), 0.5);
}
