use pwm_to_scpi::pulse_meter::{Capture, Edge, Prescaler, PulseMeter};

fn feed(meter: &mut PulseMeter, timestamps: &[u16]) -> Vec<Capture> {
    timestamps.iter().map(|&t| meter.handle_capture(t)).collect()
}

#[test]
fn capture_cycle_yields_truncated_duty() {
    let mut meter = PulseMeter::new(Prescaler::Prescale8);
    let out = feed(&mut meter, &[1000, 1500, 3000]);
    assert_eq!(out[0], Capture { next_edge: Edge::Falling, sample: None });
    assert_eq!(out[1], Capture { next_edge: Edge::Rising, sample: None });
    assert_eq!(out[2], Capture { next_edge: Edge::Falling, sample: Some(25) });
    assert_eq!(meter.duty_cycle_2(), Some(26));
}

#[test]
fn capture_across_counter_overflow() {
    let mut meter = PulseMeter::new(Prescaler::Prescale8);
    let out = feed(&mut meter, &[65500, 200, 1000]);
    // width 200 - 65500 wraps to 236, period 1000 - 65500 wraps to 1036
    assert_eq!(out[2].sample, Some(236 * 100 / 1036));
    assert_eq!(out[2].sample, Some(22));
}

#[test]
fn capture_continues_from_last_rising_edge() {
    let mut meter = PulseMeter::new(Prescaler::Direct);
    let out = feed(&mut meter, &[0, 100, 400, 700, 800]);
    // second period: rising at 400, falling at 700, next rising at 800
    assert_eq!(out[2].sample, Some(25));
    assert_eq!(out[3], Capture { next_edge: Edge::Rising, sample: None });
    assert_eq!(out[4], Capture { next_edge: Edge::Falling, sample: Some(75) });
    assert_eq!(meter.duty_cycle_2(), Some(51));
}

#[test]
fn capture_zero_period_gives_no_sample() {
    let mut meter = PulseMeter::new(Prescaler::Prescale64);
    let out = feed(&mut meter, &[500, 600, 500]);
    assert_eq!(out[2], Capture { next_edge: Edge::Falling, sample: None });
    assert_eq!(meter.duty_cycle_2(), None);
    // the cycle goes on from the event that closed the empty period
    let out = feed(&mut meter, &[900, 1500]);
    assert_eq!(out[1].sample, Some(40));
    assert_eq!(meter.duty_cycle_2(), Some(41));
}

#[test]
fn capture_width_beyond_period_is_capped() {
    let mut meter = PulseMeter::new(Prescaler::Prescale256);
    let out = feed(&mut meter, &[100, 600, 300]);
    assert_eq!(out[2].sample, Some(100));
}

#[test]
fn meter_keeps_prescaler() {
    let meter = PulseMeter::new(Prescaler::Prescale1024);
    assert_eq!(meter.prescaler(), Prescaler::Prescale1024);
    assert_eq!(meter.duty_cycle_2(), None);
}
