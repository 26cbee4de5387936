use piano::hammer::{Hammer, PASSES};

fn pow(x: f32, p: f32) -> f32 {
    f32::powf(x, p)
}

fn felt_hammer(v0: f32) -> Hammer<f32> {
    Hammer::new(261.6, 44100.0, 0.01, 2.0e9, 2.5, 10.0, 1.0e-5, v0)
}

#[test]
fn new_hammer_flies_free() {
    let h = felt_hammer(5.0);
    assert_eq!(h.dt, 1.0 / 44100.0);
    assert_eq!(h.dti, 44100.0);
    assert_eq!(h.x, 0.0);
    assert_eq!(h.v, 5.0);
    assert_eq!(h.a, 0.0);
    assert_eq!(h.v0, 5.0);
    assert_eq!(h.mi, 1.0 / 0.01);
    assert_eq!(h.k, 2.0e9);
    assert_eq!(h.p, 2.5);
    assert_eq!(h.fs, 44100.0);
    assert_eq!(h.f, 0.0);
    assert_eq!(h.upprev, 0.0);
    assert_eq!(h.alpha, 1.0e-5);
    assert_eq!(h.z2i, 1.0 / (2.0 * 10.0));
}

#[test]
fn the_relaxation_makes_five_passes() {
    assert_eq!(PASSES, 5);
    let mut h = felt_hammer(5.0);
    let calls = std::cell::Cell::new(0);
    let counting = |x: f32, p: f32| {
        calls.set(calls.get() + 1);
        f32::powf(x, p)
    };
    // The hammer has not touched the string yet: only the five new
    // compressions are positive.
    h.load(0.0, &counting);
    assert_eq!(calls.get(), 5);
    // Now it is pressed: the present compression is raised as well.
    h.load(0.0, &counting);
    assert_eq!(calls.get(), 5 + 6);
}

#[test]
fn the_first_sample_follows_the_formula() {
    let mut h = felt_hammer(5.0);
    let (k, p, alpha) = (h.k, h.p, h.alpha);
    let (dt, dti, mi, z2i) = (h.dt, h.dti, h.mi, h.z2i);
    let vin = 0.25f32;

    let mut up = 0.0f32;
    let mut dupdt = (up - 0.0) * dti;
    let mut f = 0.0f32;
    let mut v1 = 0.0f32;
    let mut x1 = 0.0f32;
    for _ in 0..5 {
        f = k * (up + alpha * dupdt);
        if f < 0.0 {
            f = 0.0;
        }
        let a = -f * mi;
        v1 = 5.0 + a * dt;
        x1 = 0.0 + (v1 - (vin + f * z2i)) * dt;
        up = if x1 > 0.0 { f32::powf(x1, p) } else { 0.0 };
        dupdt = (up - 0.0) * dti;
    }

    let force = h.load(vin, &pow);
    assert_eq!(force, f);
    assert_eq!(h.f, f);
    assert_eq!(h.v, v1);
    assert_eq!(h.x, x1);
    assert_eq!(h.upprev, up);
    assert!(force > 0.0);
}

#[test]
fn a_hammer_that_moves_away_does_not_pull() {
    let mut h = felt_hammer(-5.0);
    for _ in 0..100 {
        assert_eq!(h.load(0.0, &pow), 0.0);
    }
    assert!(h.x < 0.0);
}

#[test]
fn the_force_is_never_negative() {
    for v0 in [0.5f32, 2.0, 5.0, 9.0] {
        for vin in [-1.0f32, 0.0, 0.3] {
            let mut h = felt_hammer(v0);
            let mut pressed = false;
            for _ in 0..2000 {
                let force = h.load(vin, &pow);
                assert!(force >= 0.0);
                pressed = pressed || force > 0.0;
            }
            assert!(pressed);
        }
    }
}
