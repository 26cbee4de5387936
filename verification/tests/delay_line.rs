use piano::delay_line::DelayLine;
use piano::filter::Filter;
use piano::ring_buffer::RingBuffer;
use piano::soundboard::Soundboard;

fn history(buf: &RingBuffer<f64>) -> Vec<f64> {
    let mut out = vec![];
    let mut iter = buf.iter();
    while let Some(x) = iter.next() {
        out.push(*x);
    }
    out
}

fn gain(g: f64) -> Filter<f64> {
    Filter::new(0, vec![1.0], vec![g], String::from("gain"))
}

#[test]
fn a_new_line_waits_for_its_waves() {
    let line = DelayLine::new(3, 2, 0.5f64);
    assert_eq!(line.to_right_delay, 3);
    assert_eq!(line.to_left_delay, 2);
    assert_eq!(line.v_right_plus, 0.5);
    assert_eq!(line.v_left_plus, 0.5);
    assert_eq!(line.next_v_left_minus, None);
    assert_eq!(line.next_v_right_minus, None);
    assert!(line.to_right_filters.is_empty());
    assert!(line.to_left_filters.is_empty());
    assert_eq!(history(&line.v_left_minus_history), vec![0.5; 3]);
    assert_eq!(history(&line.v_right_minus_history), vec![0.5; 2]);
}

#[test]
fn a_wave_arrives_after_the_delay_of_its_direction() {
    let mut line = DelayLine::new(3, 2, 0.0f64);
    let mut right_end = vec![];
    let mut left_end = vec![];
    for step in 0..6 {
        line.do_delay();
        right_end.push(line.v_right_plus);
        left_end.push(line.v_left_plus);
        line.next_v_left_minus = Some(if step == 0 { 1.0 } else { 0.0 });
        line.next_v_right_minus = Some(if step == 0 { 2.0 } else { 0.0 });
        line.update();
        assert_eq!(line.next_v_left_minus, None);
        assert_eq!(line.next_v_right_minus, None);
    }
    assert_eq!(right_end, vec![0.0, 0.0, 0.0, 1.0, 0.0, 0.0]);
    assert_eq!(left_end, vec![0.0, 0.0, 2.0, 0.0, 0.0, 0.0]);
}

#[test]
fn the_filters_of_each_direction_are_passed_in_order() {
    let mut line = DelayLine::new_with_filters(
        1,
        1,
        0.0f64,
        vec![gain(2.0), Filter::new(1, vec![1.0, 0.0], vec![1.0, 1.0], String::from("sum"))],
        vec![gain(-1.0)],
    );
    line.do_delay();
    line.next_v_left_minus = Some(3.0);
    line.next_v_right_minus = Some(5.0);
    line.update();
    line.do_delay();
    assert_eq!(line.v_right_plus, 6.0);
    assert_eq!(line.v_left_plus, -5.0);
    line.next_v_left_minus = Some(10.0);
    line.next_v_right_minus = Some(0.0);
    line.update();
    line.do_delay();
    // The second filter adds the last input of the first: 20 + 6.
    assert_eq!(line.v_right_plus, 26.0);
    assert_eq!(history(&line.to_right_filters[0].x), vec![10.0]);
    assert_eq!(history(&line.to_right_filters[1].x), vec![20.0, 6.0]);
}

#[test]
fn a_new_soundboard_is_at_rest() {
    let board = Soundboard::new(4000.0f32);
    assert_eq!(board.impedance, 4000.0);
    assert_eq!(board.velocity, 0.0);
}

#[test]
fn a_line_is_ready_once_both_waves_are_there() {
    use_phase();
}

fn use_phase() {
    let mut line = DelayLine::new(1, 1, 0.0f64);
    assert_eq!(line.phase(), piano::delay_line::Phase::AwaitingInput);
    line.next_v_left_minus = Some(1.0);
    assert_eq!(line.phase(), piano::delay_line::Phase::AwaitingInput);
    line.next_v_right_minus = Some(2.0);
    assert_eq!(line.phase(), piano::delay_line::Phase::Ready);
    line.update();
    assert_eq!(line.phase(), piano::delay_line::Phase::AwaitingInput);
}
