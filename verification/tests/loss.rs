use piano::loss::loss;
use piano::ring_buffer::RingBuffer;

fn history(buf: &RingBuffer<f64>) -> Vec<f64> {
    let mut out = vec![];
    let mut iter = buf.iter();
    while let Some(x) = iter.next() {
        out.push(*x);
    }
    out
}

#[test]
fn the_loss_filter_follows_the_formula() {
    let (f0, fs, c1, c3) = (261.625f64, 44100.0f64, 0.25f64, 5.85f64);
    let filter = loss(f0, fs, c1, c3, &|x: f64| f64::sqrt(x));
    let g = 1.0 - c1 / f0;
    let b_ = 4.0 * c3 + f0;
    let a1 = (-b_ + f64::sqrt(b_ * b_ - 16.0 * c3 * c3)) / (4.0 * c3);
    assert_eq!(filter.n, 1);
    assert_eq!(filter.a, vec![1.0, a1]);
    assert_eq!(filter.b, vec![g * (1.0 + a1), 0.0]);
    assert_eq!(filter.name, "loss");
    assert_eq!(history(&filter.x), vec![0.0, 0.0]);
    assert_eq!(history(&filter.y), vec![0.0, 0.0]);
    assert!(-1.0 < a1 && a1 < 0.0);
}

#[test]
fn the_root_is_taken_of_the_discriminant() {
    let seen = std::cell::Cell::new(0.0f64);
    let filter = loss(100.0f64, 44100.0, 1.0, 2.0, &|x: f64| {
        seen.set(x);
        3.0
    });
    assert_eq!(seen.get(), 108.0 * 108.0 - 16.0 * 2.0 * 2.0);
    assert_eq!(filter.a, vec![1.0, (-108.0 + 3.0) / 8.0]);
    assert_eq!(filter.b, vec![(1.0 - 1.0 / 100.0) * (1.0 + (-108.0 + 3.0) / 8.0), 0.0]);
}

#[test]
fn the_loss_filter_passes_dc_at_the_loss_gain() {
    let (f0, c1) = (440.0f64, 0.25f64);
    let mut filter = loss(f0, 44100.0, c1, 5.85, &|x: f64| f64::sqrt(x));
    let mut out = 0.0;
    for _ in 0..2000 {
        out = filter.filter(1.0);
    }
    assert!((out - (1.0 - c1 / f0)).abs() < 1e-12);
}
