use piano::dwgs::{DWGFilters, DWGs};
use piano::filter::Filter;
use piano::hammer::Hammer;
use piano::math::Math;
use piano::piano::{bridge_impedance, unison_count, unison_frequency, Piano};
use piano::tuning::{clamp_delay, delays, dispersion_count};

fn pow(x: f32, p: f32) -> f32 {
    f32::powf(x, p)
}

fn math() -> Math<
    f32,
    fn(f32) -> f32,
    fn(f32) -> f32,
    fn(f32, f32) -> f32,
    fn(f32) -> f32,
    fn(f32) -> (f32, f32),
    fn(f32, f32) -> f32,
    fn(f32) -> usize,
> {
    Math {
        pi: std::f32::consts::PI,
        halfstep: f64::powf(2.0, 1.0 / 12.0) as f32,
        ln: f32::ln,
        exp: f32::exp,
        pow: f32::powf,
        sqrt: f32::sqrt,
        phasor: |x: f32| (f32::cos(x), f32::sin(x)),
        atan2: f32::atan2,
        trunc: |x: f32| x as usize,
    }
}

fn groupdelay(filter: &Filter<f32>, f: f32, fs: f32) -> f32 {
    let m = math();
    filter.groupdelay(f, fs, m.pi, &m.phasor, &m.atan2, &m.sqrt)
}

#[test]
fn the_register_chooses_the_number_of_strings() {
    assert_eq!(unison_count(0), 1);
    assert_eq!(unison_count(21), 1);
    assert_eq!(unison_count(30), 1);
    assert_eq!(unison_count(31), 2);
    assert_eq!(unison_count(40), 2);
    assert_eq!(unison_count(41), 3);
    assert_eq!(unison_count(60), 3);
    assert_eq!(unison_count(108), 3);
    assert_eq!(unison_count(usize::MAX), 3);
}

#[test]
fn short_delays_are_taken_as_one_sample() {
    assert_eq!(clamp_delay(0), 1);
    assert_eq!(clamp_delay(1), 1);
    assert_eq!(clamp_delay(2), 2);
    assert_eq!(clamp_delay(3), 3);
    assert_eq!(clamp_delay(usize::MAX), usize::MAX);
}

#[test]
fn strings_above_400_hz_carry_one_dispersion_filter() {
    assert_eq!(dispersion_count(27.5f32), 4);
    assert_eq!(dispersion_count(261.6f32), 4);
    assert_eq!(dispersion_count(400.0f32), 4);
    assert_eq!(dispersion_count(400.0001f64), 1);
    assert_eq!(dispersion_count(4186.0f32), 1);
}

#[test]
fn the_strings_of_a_unison_are_slightly_out_of_tune() {
    let f = 261.6256f32;
    assert_eq!(unison_frequency(f, 0), f);
    assert_eq!(unison_frequency(f, 1), f * 1.0003);
    assert_eq!(unison_frequency(f, 2), f * 0.9996);
    assert_eq!(unison_frequency(440.0f64, 1), 440.0 * 1.0003);
    assert_eq!(unison_frequency(440.0f64, 2), 440.0 * 0.9996);
}

#[test]
fn each_string_sees_the_board_and_the_other_strings() {
    assert_eq!(bridge_impedance(4000.0f32, 12.5, 1), 4000.0);
    assert_eq!(bridge_impedance(4000.0f32, 12.5, 2), 4012.5);
    assert_eq!(bridge_impedance(4000.0f32, 12.5, 3), 4025.0);
}

#[test]
fn the_period_is_shared_out_by_the_formula() {
    let (f, fs, inpos) = (261.625f64, 44100.0f64, 1.0 / 7.0);
    let (dispersion, lowpass) = (27.5f64, 0.75f64);
    let d = delays(f, fs, inpos, dispersion, lowpass, &|x: f64| x as usize);
    let deltot = fs / f;
    assert_eq!(d.del1, (inpos * 0.5 * deltot) as usize);
    assert_eq!(d.del1, 12);
    assert_eq!(d.del2, (0.5 * (deltot - 2.0 * 12.0) - dispersion) as usize);
    assert_eq!(d.del2, 44);
    assert_eq!(d.del3, (0.5 * (deltot - 2.0 * 12.0) - lowpass - 5.0) as usize);
    assert_eq!(d.del3, 66);
    assert_eq!(d.tuning, deltot - (12.0 + 12.0 + 44.0 + 66.0 + dispersion + lowpass));
    assert!(d.tuning > 0.0 && d.tuning < 8.0);
}

#[test]
fn a_period_too_short_for_its_filters_still_gets_delay_lines() {
    let d = delays(4000.0f32, 8000.0f32, 0.5, 3.0, 1.0, &|x: f32| x as usize);
    assert_eq!((d.del1, d.del2, d.del3), (1, 1, 1));
    assert_eq!(d.tuning, 2.0 - (1.0 + 1.0 + 1.0 + 1.0 + 3.0 + 1.0));
}

#[test]
fn the_parameters_of_a_note_follow_the_regressions() {
    for note in [21usize, 30, 35, 48, 60, 69, 84, 108] {
        let f: f32 = 440.0 * f32::powf(2.0, (note as f32 - 69.0) / 12.0);
        let f0 = 27.5;
        let rho = 7850.0;
        let p = 2.0 + 1.0 * f32::ln(f / f0) / f32::ln(4192.0 / f0);
        let m = 0.06 - 0.058 * f32::powf(f32::ln(f / f0) / f32::ln(4192.0 / f0), 0.1);
        let k = 40.0 / f32::powf(0.7e-3, p);
        let l = 0.04 + 1.4 / (1.0 + f32::exp(-3.4 + 1.4 * f32::ln(f / f0)));
        let r = 0.002 * f32::powf(1.0 + 0.6 * f32::ln(f / f0), -1.4);
        let rho_l = std::f32::consts::PI * r * r * rho;
        let t = (2.0 * l * f) * (2.0 * l * f) * rho_l;
        let e = 200.0e9;
        let rcore = if r < 0.0006 { r } else { 0.0006 };
        let b = (std::f32::consts::PI * std::f32::consts::PI * std::f32::consts::PI)
            * e
            * (rcore * rcore * rcore * rcore)
            / (4.0 * l * l * t);
        let z = f32::sqrt(t * rho_l);
        let alpha = 0.1e-4 * f32::ln(f / f0) / f32::ln(4192.0 / f0);

        let n = math().note(note);
        assert_eq!(n.f, f);
        assert_eq!(n.p, p);
        assert_eq!(n.m, m);
        assert_eq!(n.k, k);
        assert_eq!(n.l, l);
        assert_eq!(n.r, r);
        assert_eq!(n.rho_l, rho_l);
        assert_eq!(n.t, t);
        assert_eq!(n.b, b);
        assert_eq!(n.z, z);
        assert_eq!(n.alpha, alpha);
    }
    assert_eq!(math().note(69).f, 440.0);
}

#[test]
fn a_string_is_made_of_its_filters_and_delays() {
    let (f, fs) = (261.6256f32, 44100.0f32);
    let (c1, c3, b, z) = (0.25f32, 5.85f32, 0.000175f32, 10.0f32);
    let s = DWGs::new(f, fs, 1.0 / 7.0, c1, c3, b, z, 4000.0, 0.0, &math()).unwrap();
    assert_eq!(s.filters.dispersion.len(), 4);
    assert_eq!(s.filters.lowpass.name, "loss");
    assert_eq!(s.filters.fracdelay.name, "thirian");
    assert_eq!(s.nodes.len(), 8);
    assert_eq!(s.nodes[0].z, z);
    assert_eq!(s.nodes[4].z, 4000.0);
    assert_eq!(s.nodes[6].z, 0.0);

    let m = math();
    let expected = piano::thirian::thirian_dispersion(b, f, 4, m.halfstep, &m.ln, &m.exp);
    for stage in &s.filters.dispersion {
        assert_eq!(stage.a, expected.a);
        assert_eq!(stage.b, expected.b);
    }
    let dispersion_delay = 4.0 * groupdelay(&expected, f, fs);
    let lowpass = piano::loss::loss(f, fs, c1, c3, &m.sqrt);
    assert_eq!(s.filters.lowpass.a, lowpass.a);
    assert_eq!(s.filters.lowpass.b, lowpass.b);
    let d = delays(f, fs, 1.0 / 7.0, dispersion_delay, groupdelay(&lowpass, f, fs), &m.trunc);
    assert_eq!((s.left.del1, s.left.del2), (d.del1, d.del1));
    assert_eq!((s.right.del1, s.right.del2), (d.del2, d.del3));
    assert_eq!(s.filters.fracdelay.n, d.tuning as usize);
    let fracdelay = piano::thirian::thirian(d.tuning, d.tuning as usize);
    assert_eq!(s.filters.fracdelay.a, fracdelay.a);

    let high = DWGs::new(1046.5, fs, 1.0 / 7.0, c1, c3, b, z, 4000.0, 0.0, &math()).unwrap();
    assert_eq!(high.filters.dispersion.len(), 1);
}

#[test]
fn a_string_whose_tuning_filter_does_not_fit_is_not_made() {
    let mut m = math();
    m.trunc = |_: f32| 68;
    assert!(DWGs::new(261.6256, 44100.0, 1.0 / 7.0, 0.25, 5.85, 0.000175, 10.0, 4000.0, 0.0, &m).is_none());
    assert!(Piano::new(60, 44100.0, 5.0, &m).is_none());
    m.trunc = |_: f32| 67;
    assert!(DWGs::new(261.6256, 44100.0, 1.0 / 7.0, 0.25, 5.85, 0.000175, 10.0, 4000.0, 0.0, &m).is_some());
}

#[test]
fn the_delays_of_a_string_add_up_to_one_period() {
    for note in [25usize, 35, 48, 60, 72, 84] {
        let fs = 44100.0f32;
        let p = Piano::new(note, fs, 5.0, &math()).unwrap();
        let f = math().note(note).f;
        for (k, s) in p.string.iter().enumerate() {
            let fk = unison_frequency(f, k);
            let lines = (2 * s.left.del1 + s.right.del1 + s.right.del2) as f32;
            let mut filters = groupdelay(&s.filters.lowpass, fk, fs)
                + groupdelay(&s.filters.fracdelay, fk, fs);
            for stage in &s.filters.dispersion {
                filters += groupdelay(stage, fk, fs);
            }
            assert!((lines + filters - fs / fk).abs() < 1.0);
        }
    }
}

#[test]
fn a_piano_has_a_hammer_for_every_string() {
    for (note, strings) in [(25usize, 1usize), (35, 2), (60, 3)] {
        let p = Piano::new(note, 44100.0, 5.0, &math()).unwrap();
        let n = math().note(note);
        assert_eq!(p.nstrings, strings);
        assert_eq!(p.string.len(), strings);
        assert_eq!(p.hammers.len(), strings);
        assert_eq!(p.z, n.z);
        assert_eq!(p.zb, 4000.0);
        for (k, s) in p.string.iter().enumerate() {
            assert_eq!(s.nodes[0].z, n.z);
            assert_eq!(s.nodes[4].z, 4000.0 + (strings - 1) as f32 * n.z);
            assert_eq!(s.nodes[6].z, 0.0);
            let alone = DWGs::new(
                unison_frequency(n.f, k),
                44100.0,
                1.0 / 7.0,
                0.25,
                5.85,
                n.b,
                n.z,
                bridge_impedance(4000.0, n.z, strings),
                0.0,
                &math(),
            )
            .unwrap();
            assert_eq!(s.right.del1, alone.right.del1);
            assert_eq!(s.right.del2, alone.right.del2);
            assert_eq!(s.filters.fracdelay.a, alone.filters.fracdelay.a);
        }
        for h in &p.hammers {
            assert_eq!(h.v, 5.0);
            assert_eq!(h.x, 0.0);
            assert_eq!(h.mi, 1.0 / n.m);
            assert_eq!(h.k, n.k);
            assert_eq!(h.p, n.p);
            assert_eq!(h.alpha, n.alpha);
            assert_eq!(h.z2i, 1.0 / (2.0 * n.z));
            assert_eq!(h.dt, 1.0 / 44100.0);
        }
    }
}

#[test]
fn one_sample_of_one_string_follows_the_formula() {
    let filters = DWGFilters {
        dispersion: vec![],
        lowpass: Filter::new(0, vec![1.0f64], vec![1.0], String::from("lowpass")),
        fracdelay: Filter::new(0, vec![1.0f64], vec![1.0], String::from("fracdelay")),
    };
    let (z, zb) = (10.0f64, 30.0f64);
    let mut s = DWGs::wire(1, 1, 1, filters, z, zb, 0.0);
    // A wave is on its way to the bridge, and the string moves under the hammer.
    s.right.d1.push(2.0);
    s.nodes[2].a0 = 0.125;
    s.nodes[1].a1 = 0.25;
    let h = Hammer::new(261.6f64, 44100.0, 0.01, 2.0e9, 2.5, z, 1.0e-5, 5.0);
    let mut twin = Hammer::new(261.6f64, 44100.0, 0.01, 2.0e9, 2.5, z, 1.0e-5, 5.0);
    let force = twin.load(0.125 + 0.25, &|x: f64, p: f64| f64::powf(x, p));
    assert!(force > 0.0);
    let mut p = Piano::assemble(0, z, zb, vec![s], vec![h]);
    let out = p.go(&|x: f64, p: f64| f64::powf(x, p));
    assert_eq!(p.hammers[0].f, twin.f);
    assert_eq!(p.hammers[0].x, twin.x);
    assert_eq!(p.hammers[0].v, twin.v);
    assert_eq!(p.string[0].nodes[6].load, force / (2.0 * z));
    let load = 0.0 + (2.0 * z * 2.0) / (z * 1.0 + zb);
    assert_eq!(p.string[0].nodes[4].load, load);
    let own_board = 2.0 * zb / (z + zb);
    let from_string = 2.0 * z / (z + zb);
    assert_eq!(out, 0.0 + (own_board * 0.0 + 0.0 + from_string * 2.0 - 0.0));
}

#[test]
fn middle_c_sounds_and_stays_bounded() {
    let mut instrument = Piano::new(60, 44100.0, 5.0, &math()).unwrap();
    let mut peak = 0.0f32;
    let mut early = 0.0f32;
    let mut late = 0.0f32;
    for i in 0..44100 * 3 {
        let out = instrument.go(&pow);
        assert!(out.is_finite());
        assert!(out.abs() < 10.0);
        peak = peak.max(out.abs());
        if i < 44100 {
            early = early.max(out.abs());
        }
        if i >= 2 * 44100 {
            late = late.max(out.abs());
        }
    }
    assert!(peak > 0.0);
    assert!(late < early);
}

#[test]
fn every_register_sounds_and_stays_bounded() {
    for note in [25usize, 35, 96] {
        let mut instrument = Piano::new(note, 44100.0, 3.0, &math()).unwrap();
        let mut peak = 0.0f32;
        for _ in 0..22050 {
            let out = instrument.go(&pow);
            assert!(out.is_finite());
            assert!(out.abs() < 10.0);
            peak = peak.max(out.abs());
        }
        assert!(peak > 0.0);
    }
}
