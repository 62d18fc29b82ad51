use fanboi::actuator::Actuation;
use fanboi::config::Config;
use fanboi::control::ControlOutput;
use fanboi::decimal::ParseError;
use fanboi::fan::{Fan, Tick, TickError, MAX_DUTY};
use fanboi::sensor::SensorError;

fn texts(items: &[&str]) -> Vec<String> {
    items.iter().map(|s| s.to_string()).collect()
}

fn proportional_only() -> Config {
    Config { p_value: 1000, i_value: 0, d_value: 0, ..Config::default() }
}

fn persist(text: &str) -> Option<Actuation> {
    Some(Actuation::Persist(text.to_string()))
}

#[test]
fn a_low_duty_does_not_start_a_fan_at_rest() {
    let mut fan = Fan::new(&proportional_only());
    let tick = fan.tick(&texts(&["38000", "42000"]), "0").unwrap();
    assert_eq!(
        tick,
        Tick {
            temp: 42,
            control: ControlOutput { p: -2_000_000, i: 0, d: 0, output: -2_000_000 },
            new_pwm: 2,
            running: false,
            action: None,
        }
    );
}

#[test]
fn a_low_duty_is_written_to_a_running_fan() {
    let mut fan = Fan::new(&proportional_only());
    let tick = fan.tick(&texts(&["38000", "42000"]), "30\n").unwrap();
    assert_eq!(tick.temp, 42);
    assert_eq!(tick.new_pwm, 2);
    assert!(tick.running);
    assert_eq!(tick.action, persist("2"));
}

#[test]
fn a_high_duty_starts_a_fan_at_rest() {
    let mut fan = Fan::new(&proportional_only());
    let tick = fan.tick(&texts(&["91000", "60000"]), "0\n").unwrap();
    assert_eq!(tick.temp, 91);
    assert_eq!(tick.control.output, -51_000_000);
    assert_eq!(tick.new_pwm, 51);
    assert_eq!(tick.action, persist("51"));

    let mut fan = Fan::new(&proportional_only());
    let tick = fan.tick(&texts(&["90000", "60000"]), "0\n").unwrap();
    assert_eq!(tick.new_pwm, 50);
    assert_eq!(tick.action, None);
}

#[test]
fn a_full_stop_is_always_written() {
    let mut fan = Fan::new(&proportional_only());
    let tick = fan.tick(&texts(&["38000", "35000"]), "0").unwrap();
    assert_eq!(tick.temp, 38);
    assert_eq!(tick.control.output, 2_000_000);
    assert_eq!(tick.new_pwm, 0);
    assert_eq!(tick.action, persist("0"));

    let tick = fan.tick(&texts(&["40000", "40000"]), "77").unwrap();
    assert_eq!(tick.control.output, 0);
    assert_eq!(tick.new_pwm, 0);
    assert_eq!(tick.action, persist("0"));
}

#[test]
fn a_dry_run_never_persists() {
    let config = Config { dry_run: true, ..proportional_only() };
    let mut fan = Fan::new(&config);
    for (sensor, actuator) in [
        ("42000", "30"),
        ("42000", "0"),
        ("95000", "0"),
        ("95000", "255"),
        ("20000", "0"),
        ("20000", "255"),
        ("2147483647", "1"),
    ] {
        let tick = fan.tick(&texts(&[sensor]), actuator).unwrap();
        match tick.action {
            Some(Actuation::Persist(_)) => panic!("persisted in a dry run"),
            Some(Actuation::Simulate(pwm)) => assert_eq!(pwm, tick.new_pwm),
            None => assert!(!tick.running && tick.new_pwm != 0 && tick.new_pwm <= 50),
        }
    }
    let tick = fan.tick(&texts(&["42000"]), "30").unwrap();
    assert_eq!(tick.action, Some(Actuation::Simulate(2)));
}

#[test]
fn the_controller_carries_its_state_from_tick_to_tick() {
    let mut fan = Fan::new(&Config::default());

    let tick = fan.tick(&texts(&["42000", "41000"]), "0").unwrap();
    assert_eq!(
        tick.control,
        ControlOutput { p: -2_000_000, i: -1_400_000, d: 0, output: -3_400_000 }
    );
    assert_eq!(tick.new_pwm, 4);
    assert_eq!(tick.action, None);

    let tick = fan.tick(&texts(&["42999", "43000"]), "0").unwrap();
    assert_eq!(tick.temp, 43);
    assert_eq!(
        tick.control,
        ControlOutput { p: -3_000_000, i: -3_500_000, d: -4_000_000, output: -10_500_000 }
    );
    assert_eq!(tick.new_pwm, 11);
    assert_eq!(tick.action, None);

    let tick = fan.tick(&texts(&["41000", "39000"]), "0").unwrap();
    assert_eq!(
        tick.control,
        ControlOutput { p: -1_000_000, i: -4_200_000, d: 8_000_000, output: 2_800_000 }
    );
    assert_eq!(tick.new_pwm, 0);
    assert_eq!(tick.action, persist("0"));
}

#[test]
fn the_duty_never_exceeds_the_largest() {
    let mut fan = Fan::new(&Config::default());
    for sensor in ["2147483647", "140000", "141000", "500000", "-2147483648", "2147483647"] {
        let tick = fan.tick(&texts(&[sensor]), "1").unwrap();
        assert!(tick.new_pwm <= MAX_DUTY);
        assert!(tick.control.output >= -100_000_000 && tick.control.output <= 100_000_000);
    }
    let tick = fan.tick(&texts(&["2147483647"]), "1").unwrap();
    assert_eq!(tick.new_pwm, 100);
    assert_eq!(tick.action, persist("100"));
}

#[test]
fn an_unreadable_sensor_ends_the_tick() {
    let mut fan = Fan::new(&Config::default());
    assert_eq!(
        fan.tick(&texts(&["42000", "n/a"]), "0"),
        Err(TickError::Sensor(SensorError::Unreadable {
            source: 1,
            error: ParseError::InvalidDigit
        }))
    );
    assert_eq!(
        fan.tick(&texts(&["", "n/a"]), "0"),
        Err(TickError::Sensor(SensorError::Unreadable { source: 0, error: ParseError::Empty }))
    );
    assert_eq!(fan.tick(&Vec::new(), "0"), Err(TickError::Sensor(SensorError::NoSources)));
}

#[test]
fn an_unreadable_actuator_ends_the_tick() {
    let mut fan = Fan::new(&Config::default());
    assert_eq!(
        fan.tick(&texts(&["42000"]), "on"),
        Err(TickError::Actuator(ParseError::InvalidDigit))
    );
    assert_eq!(fan.tick(&texts(&["42000"]), ""), Err(TickError::Actuator(ParseError::Empty)));
    assert_eq!(
        fan.tick(&texts(&["42000"]), "-1"),
        Err(TickError::Actuator(ParseError::InvalidDigit))
    );
}

#[test]
fn a_number_beyond_every_duty_ends_the_tick() {
    let mut fan = Fan::new(&proportional_only());
    for actuator in ["65536", "65537", "131072", "4294967295", "4294967296"] {
        assert_eq!(
            fan.tick(&texts(&["42000"]), actuator),
            Err(TickError::Actuator(ParseError::PosOverflow))
        );
    }
    let tick = fan.tick(&texts(&["42000"]), "0").unwrap();
    assert_eq!(tick.control.d, 0);
    assert!(!tick.running);
    assert_eq!(tick.action, None);
}

#[test]
fn the_sensors_are_looked_at_before_the_actuator() {
    let mut fan = Fan::new(&Config::default());
    assert_eq!(
        fan.tick(&texts(&["42000", "?"]), "?"),
        Err(TickError::Sensor(SensorError::Unreadable {
            source: 1,
            error: ParseError::InvalidDigit
        }))
    );
}

#[test]
fn a_failed_tick_leaves_the_controller_as_it_was() {
    let mut fan = Fan::new(&Config::default());
    let mut twin = Fan::new(&Config::default());

    assert!(fan.tick(&texts(&["50000", "?"]), "0").is_err());
    assert!(fan.tick(&texts(&["50000"]), "?").is_err());
    let first = fan.tick(&texts(&["42000"]), "0").unwrap();
    assert_eq!(first, twin.tick(&texts(&["42000"]), "0").unwrap());
    assert_eq!(first.control.d, 0);

    assert!(fan.tick(&texts(&["?"]), "0").is_err());
    assert!(fan.tick(&texts(&["60000"]), "").is_err());
    let second = fan.tick(&texts(&["43000"]), "0").unwrap();
    assert_eq!(second, twin.tick(&texts(&["43000"]), "0").unwrap());
    assert_eq!(second.control.i, -3_500_000);
    assert_eq!(second.control.d, -4_000_000);
}

#[test]
fn the_running_state_is_read_back_each_tick() {
    let mut fan = Fan::new(&proportional_only());
    let tick = fan.tick(&texts(&["42000"]), "0").unwrap();
    assert!(!tick.running);
    assert_eq!(tick.action, None);
    let tick = fan.tick(&texts(&["42000"]), "65535").unwrap();
    assert!(tick.running);
    assert_eq!(tick.action, persist("2"));
    let tick = fan.tick(&texts(&["42000"]), "1").unwrap();
    assert!(tick.running);
    assert_eq!(tick.action, persist("2"));
}

#[test]
fn a_tick_is_a_step_on_what_the_texts_say() {
    let mut by_text = Fan::new(&Config::default());
    let mut by_value = Fan::new(&Config::default());
    for (sensors, actuator, temp, last_pwm) in [
        (["41999", "38000"], "0", 41, 0u16),
        (["44000", "47001"], "0\n", 47, 0),
        (["99000", "98000"], " 12 ", 99, 12),
        (["-4000", "-40000"], "255", -4, 255),
        (["40000", "40000"], "65535", 40, 65535),
        (["40000", "52000"], "00001", 52, 1),
    ] {
        let ticked = by_text.tick(&texts(&sensors), actuator).unwrap();
        let stepped = by_value.step(temp, last_pwm);
        assert_eq!(ticked, stepped);
    }
}
