use piano::analysis::{angular_frequency, group_delay, unwrap_phase};
use piano::filter::Filter;

fn history<T: Copy>(buf: &piano::ring_buffer::RingBuffer<T>) -> Vec<T> {
    let mut out = vec![];
    let mut iter = buf.iter();
    while let Some(x) = iter.next() {
        out.push(*x);
    }
    out
}

#[test]
fn new_filter_is_at_rest() {
    let f = Filter::new(2, vec![1.0f64, 0.5, 0.25], vec![2.0, 3.0, 4.0], String::from("probe"));
    assert_eq!(f.n, 2);
    assert_eq!(f.a, vec![1.0, 0.5, 0.25]);
    assert_eq!(f.b, vec![2.0, 3.0, 4.0]);
    assert_eq!(f.name, "probe");
    assert_eq!(history(&f.x), vec![0.0, 0.0, 0.0]);
    assert_eq!(history(&f.y), vec![0.0, 0.0, 0.0]);
}

#[test]
fn feed_forward_taps_weigh_the_input_history() {
    let mut f = Filter::new(2, vec![1i64, 0, 0], vec![2, 3, 5], String::from("fir"));
    assert_eq!(f.filter(1), 2);
    assert_eq!(f.filter(10), 2 * 10 + 3 * 1);
    assert_eq!(f.filter(100), 2 * 100 + 3 * 10 + 5 * 1);
    assert_eq!(f.filter(0), 3 * 100 + 5 * 10);
    assert_eq!(history(&f.x), vec![0, 100, 10]);
    assert_eq!(history(&f.y), vec![350, 235, 23]);
}

#[test]
fn feedback_taps_weigh_the_output_history() {
    // y[n] = x[n] - 2 y[n-1] - 3 y[n-2]
    let mut f = Filter::new(2, vec![1i64, 2, 3], vec![1, 0, 0], String::from("iir"));
    assert_eq!(f.filter(1), 1);
    assert_eq!(f.filter(0), -2);
    assert_eq!(f.filter(0), 4 - 3);
    assert_eq!(f.filter(0), -2 + 6);
}

#[test]
fn the_first_feedback_coefficient_divides() {
    let mut f = Filter::new(1, vec![4.0f64, 2.0], vec![8.0, 0.0], String::from("scaled"));
    assert_eq!(f.filter(1.0), 2.0);
    assert_eq!(f.filter(0.0), (0.0 - 2.0 * 2.0) / 4.0);
    assert_eq!(f.filter(3.0), (8.0 * 3.0 - (-1.0) * 2.0) / 4.0);
}

#[test]
fn order_zero_is_a_gain() {
    let mut f = Filter::new(0, vec![2.0f32], vec![3.0], String::from("gain"));
    assert_eq!(f.filter(4.0), 6.0);
    assert_eq!(f.filter(-1.0), -1.5);
}

#[test]
fn superposition_holds_on_whole_numbers() {
    let a = vec![1i64, -1, 2];
    let b = vec![3i64, 1, -2];
    let x1 = [1i64, 4, -2, 0, 7, 3];
    let x2 = [5i64, -1, 0, 2, 2, -6];
    let (p, q) = (3i64, -2i64);
    let mut f1 = Filter::new(2, a.clone(), b.clone(), String::from("one"));
    let mut f2 = Filter::new(2, a.clone(), b.clone(), String::from("two"));
    let mut f3 = Filter::new(2, a, b, String::from("both"));
    for k in 0..x1.len() {
        let y1 = f1.filter(x1[k]);
        let y2 = f2.filter(x2[k]);
        let y3 = f3.filter(p * x1[k] + q * x2[k]);
        assert_eq!(y3, p * y1 + q * y2);
    }
}

#[test]
fn a_negative_phase_is_raised_by_one_turn() {
    let turn = 2.0 * std::f64::consts::PI;
    assert_eq!(unwrap_phase(-0.5f64, turn), -0.5 + turn);
    assert_eq!(unwrap_phase(0.0f64, turn), 0.0);
    assert_eq!(unwrap_phase(0.5f64, turn), 0.5);
    assert_eq!(unwrap_phase(7.0f64, turn), 7.0);
    assert_eq!(unwrap_phase(-7i64, 6), -1);
}

#[test]
fn the_group_delay_is_the_slope_between_two_frequencies() {
    assert_eq!(group_delay(1i64, 10, 3, 20), (3 * 20 - 1 * 10) / (3 - 1));
    assert_eq!(group_delay(0.25f64, 4.0, 0.75, 6.0), (0.75 * 6.0 - 0.25 * 4.0) / (0.75 - 0.25));
    assert_eq!(angular_frequency(3.0f64, 5.0, 4.0), 2.0 * 3.0 * 5.0 / 4.0);
    // A pure delay of three samples has the same delay at every frequency.
    assert_eq!(group_delay(0.5f64, 3.0, 0.625, 3.0), 3.0);
}

#[test]
fn the_response_sums_weigh_the_phasors() {
    let f = Filter::new(2, vec![1i64, 2, 3], vec![5, 7, 11], String::from("probe"));
    let (hn, hd) = f.response_sums(&vec![1, 10, 100], &vec![2, 20, 200]);
    assert_eq!(hn, (5 + 70 + 1100, 10 + 140 + 2200));
    assert_eq!(hd, (1 + 20 + 300, 2 + 40 + 600));
}

#[test]
fn rows_of_the_wrong_length_are_refused() {
    assert!(Filter::try_new(1, vec![1.0f64, 0.5], vec![1.0, 0.0], String::from("fits")).is_some());
    assert!(Filter::try_new(1, vec![1.0f64], vec![1.0, 0.0], String::from("short a")).is_none());
    assert!(Filter::try_new(1, vec![1.0f64, 0.5], vec![1.0, 0.0, 0.0], String::from("long b")).is_none());
    assert!(Filter::try_new(0, Vec::<f64>::new(), vec![], String::from("empty")).is_none());
    assert!(Filter::try_new(usize::MAX, vec![1.0f64], vec![1.0], String::from("huge")).is_none());
    let f = Filter::try_new(2, vec![1.0f32, 2.0, 3.0], vec![4.0, 5.0, 6.0], String::from("kept")).unwrap();
    assert_eq!((f.n, f.a.len(), f.b.len()), (2, 3, 3));
    assert_eq!(f.name, "kept");
}

#[test]
fn a_pure_delay_has_its_length_as_phase_and_group_delay() {
    for len in [1usize, 2, 5] {
        let mut b = vec![0.0f64; len + 1];
        b[len] = 1.0;
        let mut a = vec![0.0f64; len + 1];
        a[0] = 1.0;
        let delay = Filter::new(len, a, b, String::from("delay"));
        let phasor = |x: f64| (f64::cos(x), f64::sin(x));
        let atan2 = |y: f64, x: f64| f64::atan2(y, x);
        let sqrt = |x: f64| f64::sqrt(x);
        let pi = std::f64::consts::PI;
        let tau = delay.phasedelay(441.0, 44100.0, pi, &phasor, &atan2, &sqrt);
        assert!((tau - len as f64).abs() < 1e-9);
        let group = delay.groupdelay(441.0, 44100.0, pi, &phasor, &atan2, &sqrt);
        assert!((group - len as f64).abs() < 1e-9);
    }
}

#[test]
fn the_phase_delay_is_made_of_what_the_functions_return() {
    // cos = 1 and sin = 0 everywhere, every root is 2 and every angle -1:
    // the phase is raised by one turn of 2 * 3 and divided by w = 2 * 3 * 5 / 10.
    let f = Filter::new(1, vec![1.0f64, 0.5], vec![0.5, 1.0], String::from("probe"));
    let tau = f.phasedelay(5.0, 10.0, 3.0, &|_: f64| (1.0, 0.0), &|_: f64, _: f64| -1.0, &|_: f64| 2.0);
    assert_eq!(tau, (-1.0 + 2.0 * 3.0) / (2.0 * 3.0 * 5.0 / 10.0));
}

#[test]
fn superposition_holds_in_floating_point_up_to_rounding() {
    let a = vec![1.0f64, -0.5, 0.25];
    let b = vec![0.7f64, 0.2, -0.1];
    let x1 = [0.1f64, 0.4, -0.2, 0.0, 0.7, 0.3];
    let x2 = [0.7f64, -0.1, 0.0, 0.2, 0.2, -0.6];
    let (p, q) = (0.3f64, -1.7f64);
    let mut f1 = Filter::new(2, a.clone(), b.clone(), String::from("one"));
    let mut f2 = Filter::new(2, a.clone(), b.clone(), String::from("two"));
    let mut f3 = Filter::new(2, a, b, String::from("both"));
    for k in 0..x1.len() {
        let y1 = f1.filter(x1[k]);
        let y2 = f2.filter(x2[k]);
        let y3 = f3.filter(p * x1[k] + q * x2[k]);
        assert!((y3 - (p * y1 + q * y2)).abs() < 1e-12);
    }
    // The two sides need not be the same number.
    let mut whole = Filter::new(0, vec![1.0f64], vec![3.0], String::from("gain"));
    let mut left = Filter::new(0, vec![1.0f64], vec![3.0], String::from("gain"));
    let mut right = Filter::new(0, vec![1.0f64], vec![3.0], String::from("gain"));
    assert!(whole.filter(0.1 + 0.7) != left.filter(0.1) + right.filter(0.7));
}
