use lgaircon::lg_ac::{check_lirc_command, FanMode, LircFault, Mode, State};

#[test]
fn from_lirc_command_test() {
    let s = State::from_lirc_command("0000000000000028 00 AC_HIGH_21 LG_AC");
    assert!(s.is_ok());
    let state = s.unwrap();
    assert_eq!(state.mode, Mode::AC);
    assert_eq!(state.min_temp, 18);
    assert_eq!(state.max_temp, 30);
    assert_eq!(state.target_temp.parse::<f64>().unwrap(), 21.0);
    assert_eq!(state.fan_mode, FanMode::High);
}

#[test]
fn from_state_test() {
    let s = State {
        updated: true,
        mode: Mode::AC,
        min_temp: 18,
        max_temp: 30,
        target_temp: 21.0f64.to_string(),
        fan_speed: 0,
        fan_mode: FanMode::High,
    };

    let cmd = State::from_state(s);

    assert_eq!(cmd, "AC_HIGH_21");
}

#[test]
fn mode_names_read_back() {
    for m in [Mode::Off, Mode::Fan, Mode::AI, Mode::AC, Mode::Dehum, Mode::Heat] {
        assert_eq!(Mode::from_str(m.to_string().as_str()), Ok(m));
    }
    for f in [FanMode::Low, FanMode::Medium, FanMode::High, FanMode::Chaos] {
        assert_eq!(FanMode::from_str(f.to_string().as_str()), Ok(f));
    }
}

#[test]
fn mode_names_are_exact() {
    assert_eq!(Mode::Dehum.to_string(), "DEHUM");
    assert_eq!(Mode::Off.to_string(), "OFF");
    assert_eq!(FanMode::Chaos.to_string(), "CHAOS");
    assert_eq!(Mode::from_str("HEAT"), Ok(Mode::Heat));
    assert_eq!(Mode::from_str("heat"), Err(()));
    assert_eq!(Mode::from_str("HEAT "), Err(()));
    assert_eq!(Mode::from_str(""), Err(()));
    assert_eq!(FanMode::from_str("MEDIUM"), Ok(FanMode::Medium));
    assert_eq!(FanMode::from_str("MED"), Err(()));
}

#[test]
fn default_state() {
    let s = State::default();
    assert!(s.updated);
    assert_eq!(s.mode, Mode::Off);
    assert_eq!(s.min_temp, 18);
    assert_eq!(s.max_temp, 30);
    assert_eq!(s.target_temp, "18");
    assert_eq!(s.fan_speed, 0);
    assert_eq!(s.fan_mode, FanMode::Low);
}

#[test]
fn lirc_command_without_temperature_keeps_default() {
    let state = State::from_lirc_command("0000000000000010 01 HEAT_LOW LG_AC").unwrap();
    assert_eq!(state.mode, Mode::Heat);
    assert_eq!(state.fan_mode, FanMode::Low);
    assert_eq!(state.target_temp, "18");
    assert!(state.updated);
    assert_eq!(state.fan_speed, 0);
}

#[test]
fn lirc_command_extra_parts_are_ignored() {
    let state = State::from_lirc_command("1 0 FAN_CHAOS_25.5_X LG_AC").unwrap();
    assert_eq!(state.mode, Mode::Fan);
    assert_eq!(state.fan_mode, FanMode::Chaos);
    assert_eq!(state.target_temp, "25.5");
}

#[test]
fn lirc_command_faults() {
    assert_eq!(check_lirc_command("0000000000000028 00 AC_HIGH_21 LG_AC"), None);
    assert_eq!(check_lirc_command("00 AC_HIGH_21"), Some(LircFault::MissingCommand));
    assert_eq!(check_lirc_command(""), Some(LircFault::MissingCommand));
    assert_eq!(check_lirc_command("1 0 COOL_HIGH_21 LG_AC"), Some(LircFault::Mode));
    assert_eq!(check_lirc_command("1 0 AC LG_AC"), Some(LircFault::MissingFanMode));
    assert_eq!(check_lirc_command("1 0 AC_FAST_21 LG_AC"), Some(LircFault::FanMode));
    assert_eq!(check_lirc_command("1  AC_HIGH LG_AC"), None);
    assert_eq!(check_lirc_command("1  0 AC_HIGH"), Some(LircFault::Mode));
}

#[test]
fn command_reads_back() {
    let s = State {
        updated: false,
        mode: Mode::Dehum,
        min_temp: 16,
        max_temp: 28,
        target_temp: String::from("23.5"),
        fan_speed: 3,
        fan_mode: FanMode::Medium,
    };
    let cmd = State::from_state(s);
    assert_eq!(cmd, "DEHUM_MEDIUM_23.5");
    let line = format!("0000000000000028 00 {} LG_AC", cmd);
    assert_eq!(check_lirc_command(&line), None);
    let back = State::from_lirc_command(&line).unwrap();
    assert_eq!(back.mode, Mode::Dehum);
    assert_eq!(back.fan_mode, FanMode::Medium);
    assert_eq!(back.target_temp, "23.5");
}
