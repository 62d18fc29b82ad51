use fanboi::control::{ControlOutput, Pid};

#[test]
fn a_new_controller_has_no_gain() {
    let mut pid = Pid::new(15, 100);
    assert_eq!(
        pid.next_control_output(10),
        ControlOutput { p: 0, i: 0, d: 0, output: 0 }
    );
    assert_eq!(
        pid.next_control_output(-70),
        ControlOutput { p: 0, i: 0, d: 0, output: 0 }
    );
}

#[test]
fn proportional() {
    let mut pid = Pid::new(10, 100).p(2, 100).i(0, 100).d(0, 100);
    assert_eq!(pid.next_control_output(0).output, 20);
    assert_eq!(pid.next_control_output(0).p, 20);

    let mut pid = pid.p(2, 10);
    assert_eq!(pid.next_control_output(0).output, 10);
    assert_eq!(pid.next_control_output(20).output, -10);
}

#[test]
fn derivative() {
    let mut pid = Pid::new(10, 100).p(0, 100).i(0, 100).d(2, 100);
    assert_eq!(pid.next_control_output(0).output, 0);
    assert_eq!(pid.next_control_output(5).output, -10);

    let mut pid = pid.d(2, 5);
    assert_eq!(pid.next_control_output(10).output, -5);
    assert_eq!(pid.next_control_output(0).output, 5);
}

#[test]
fn integral() {
    let mut pid = Pid::new(10, 100).p(0, 100).i(2, 100).d(0, 100);
    assert_eq!(pid.next_control_output(0).output, 20);
    assert_eq!(pid.next_control_output(0).output, 40);
    assert_eq!(pid.next_control_output(5).output, 50);

    let mut pid = pid.i(2, 50);
    assert_eq!(pid.next_control_output(5).output, 50);
    assert_eq!(pid.next_control_output(15).output, 40);

    let mut other = Pid::new(-10, 100).p(0, 100).i(2, 100).d(0, 100);
    assert_eq!(other.next_control_output(0).output, -20);
    assert_eq!(other.next_control_output(0).output, -40);

    let mut other = other.i(2, 50);
    assert_eq!(other.next_control_output(-5).output, -50);
    assert_eq!(other.next_control_output(-15).output, -40);
}

#[test]
fn the_integral_term_saturates() {
    let mut pid = Pid::new(0, 1000).i(1, 25);
    for _ in 0..100 {
        let out = pid.next_control_output(-10);
        assert!(out.i <= 25);
    }
    assert_eq!(pid.next_control_output(-10).i, 25);
    assert_eq!(pid.next_control_output(10).i, 15);
    assert_eq!(pid.next_control_output(10).i, 5);
    assert_eq!(pid.next_control_output(10).i, -5);
    for _ in 0..100 {
        pid.next_control_output(10);
    }
    assert_eq!(pid.next_control_output(10).i, -25);
    assert_eq!(pid.next_control_output(-3).i, -22);
}

#[test]
fn output_limit() {
    let mut pid = Pid::new(10, 1).p(1, 100).i(0, 100).d(0, 100);

    let out = pid.next_control_output(0);
    assert_eq!(out.p, 10);
    assert_eq!(out.output, 1);

    let out = pid.next_control_output(20);
    assert_eq!(out.p, -10);
    assert_eq!(out.output, -1);
}

#[test]
fn all_three_terms_together() {
    // Gains 1.0, 0.1 and 1.0 in tenths, so every value is ten times the
    // plain one.
    let mut pid = Pid::new(10, 1000).p(10, 1000).i(1, 1000).d(10, 1000);

    assert_eq!(
        pid.next_control_output(0),
        ControlOutput { p: 100, i: 10, d: 0, output: 110 }
    );
    assert_eq!(
        pid.next_control_output(5),
        ControlOutput { p: 50, i: 15, d: -50, output: 15 }
    );
    assert_eq!(
        pid.next_control_output(11),
        ControlOutput { p: -10, i: 14, d: -60, output: -56 }
    );
    assert_eq!(
        pid.next_control_output(10),
        ControlOutput { p: 0, i: 14, d: 10, output: 24 }
    );
}

#[test]
fn terms_can_be_set_between_ticks() {
    let mut pid = Pid::new(15, 100).p(10, 100);

    let out = pid.next_control_output(10);
    assert_eq!(out.output, 50);
    assert_eq!(out.p, 50);

    let out = pid.next_control_output(10);
    assert_eq!(out.output, 50);
    assert_eq!(out.p, 50);

    let mut pid = pid.i(1, 100);
    let out = pid.next_control_output(10);
    assert_eq!(out.output, 55);
    assert_eq!(out.p, 50);
    assert_eq!(out.i, 5);

    let mut pid = pid.d(2, 100);
    let out = pid.next_control_output(15);
    assert_eq!(out.output, -5);
    assert_eq!(out.p, 0);
    assert_eq!(out.i, 5);
    assert_eq!(out.d, -10);
}

#[test]
fn at_the_setpoint_the_proportional_term_is_zero() {
    for setpoint in [i64::MIN, -40_000, -1, 0, 1, 40_000, i64::MAX] {
        for gain in [i64::MIN, -1000, -1, 0, 1, 700, 1000, i64::MAX] {
            let mut pid = Pid::new(setpoint, 100).p(gain, 100).i(gain, 100).d(gain, 100);
            assert_eq!(pid.next_control_output(setpoint).p, 0);
            assert_eq!(pid.next_control_output(setpoint).p, 0);
        }
    }
}

#[test]
fn equal_states_and_measurements_give_equal_outputs() {
    let measurements: [i64; 8] = [0, 41_000, 42_000, 39_000, 38_000, 45_000, -3_000, 40_000];
    let mut a = Pid::new(40_000, 100_000_000);
    a = a.p(1000, 100_000_000).i(700, 100_000_000).d(4000, 100_000_000);
    let mut b = Pid::new(40_000, 100_000_000);
    b = b.p(1000, 100_000_000).i(700, 100_000_000).d(4000, 100_000_000);
    for m in measurements {
        assert_eq!(a.next_control_output(m), b.next_control_output(m));
    }
}

#[test]
fn no_input_overflows() {
    let extremes: [i64; 5] = [i64::MIN, -1, 0, 1, i64::MAX];
    for setpoint in extremes {
        for gain in extremes {
            let mut pid = Pid::new(setpoint, i64::MAX);
            pid = pid.p(gain, i64::MAX).i(gain, i64::MAX).d(gain, i64::MAX);
            for first in extremes {
                for second in extremes {
                    let mut run = Pid::new(setpoint, i64::MAX);
                    run = run.p(gain, i64::MAX).i(gain, i64::MAX).d(gain, i64::MAX);
                    let one = run.next_control_output(first);
                    let two = run.next_control_output(second);
                    let e_one = setpoint as i128 - first as i128;
                    let e_two = setpoint as i128 - second as i128;
                    let lim = i64::MAX as i128;
                    let cl = |v: i128| v.max(-lim).min(lim);
                    let p_one = cl(gain as i128 * e_one);
                    let i_one = cl(gain as i128 * e_one);
                    assert_eq!(one.p as i128, p_one);
                    assert_eq!(one.i as i128, i_one);
                    assert_eq!(one.d, 0);
                    assert_eq!(one.output as i128, cl(p_one + i_one));
                    let p_two = cl(gain as i128 * e_two);
                    let i_two = cl(i_one + gain as i128 * e_two);
                    let d_two = cl(gain as i128 * (first as i128 - second as i128));
                    assert_eq!(two.p as i128, p_two);
                    assert_eq!(two.i as i128, i_two);
                    assert_eq!(two.d as i128, d_two);
                    assert_eq!(two.output as i128, cl(p_two + i_two + d_two));
                }
            }
            assert_eq!(pid.next_control_output(setpoint).p, 0);
        }
    }
}
