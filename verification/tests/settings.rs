use lgaircon::lg_ac::{FanMode, Mode, State};
use lgaircon::settings::{
    check_settings, get_setting, get_state, update_state, Setting, SettingWrite, SettingsFault,
};

fn row(name: &str, val: &str) -> Setting {
    Setting { name: name.to_string(), val: val.to_string() }
}

#[test]
fn get_setting_takes_first_match() {
    let rows = vec![row("mode", "AC"), row("min_temp", "17"), row("mode", "HEAT")];
    assert_eq!(get_setting(&rows, "mode"), Some("AC".to_string()));
    assert_eq!(get_setting(&rows, "min_temp"), Some("17".to_string()));
    assert_eq!(get_setting(&rows, "fan_mode"), None);
}

#[test]
fn empty_settings_give_default_state() {
    let rows: Vec<Setting> = Vec::new();
    assert_eq!(check_settings(&rows), None);
    let s = get_state(&rows);
    assert_eq!(s.mode, Mode::Off);
    assert_eq!(s.min_temp, 18);
    assert_eq!(s.max_temp, 30);
    assert_eq!(s.target_temp, "18");
    assert_eq!(s.fan_speed, 0);
    assert_eq!(s.fan_mode, FanMode::Low);
}

#[test]
fn stored_settings_are_read() {
    let rows = vec![
        row("mode", "HEAT"),
        row("min_temp", "-5"),
        row("max_temp", "+40"),
        row("target_temp", "22.5"),
        row("fan_speed", "2"),
        row("fan_mode", "CHAOS"),
    ];
    assert_eq!(check_settings(&rows), None);
    let s = get_state(&rows);
    assert_eq!(s.mode, Mode::Heat);
    assert_eq!(s.min_temp, -5);
    assert_eq!(s.max_temp, 40);
    assert_eq!(s.target_temp, "22.5");
    assert_eq!(s.fan_speed, 2);
    assert_eq!(s.fan_mode, FanMode::Chaos);
}

#[test]
fn settings_faults() {
    assert_eq!(check_settings(&vec![row("mode", "COOL")]), Some(SettingsFault::Mode));
    assert_eq!(check_settings(&vec![row("max_temp", "3o")]), Some(SettingsFault::Number));
    assert_eq!(
        check_settings(&vec![row("fan_speed", "2147483648")]),
        Some(SettingsFault::Number)
    );
    assert_eq!(check_settings(&vec![row("fan_mode", "21")]), Some(SettingsFault::FanMode));
    assert_eq!(
        check_settings(&vec![row("fan_mode", "21"), row("mode", "X")]),
        Some(SettingsFault::Mode)
    );
}

fn parts(w: &SettingWrite) -> (bool, &str, &str) {
    match w {
        SettingWrite::Add { name, val } => (true, name.as_str(), val.as_str()),
        SettingWrite::Update { name, val } => (false, name.as_str(), val.as_str()),
    }
}

#[test]
fn update_state_writes() {
    let state = State {
        updated: true,
        mode: Mode::AI,
        min_temp: -3,
        max_temp: 31,
        target_temp: "24".to_string(),
        fan_speed: 1,
        fan_mode: FanMode::High,
    };
    let rows = vec![row("mode", "OFF"), row("fan_speed", "0")];
    let w = update_state(&rows, &state);
    let got: Vec<(bool, &str, &str)> = w.iter().map(parts).collect();
    assert_eq!(
        got,
        vec![
            (false, "mode", "AI"),
            (true, "min_temp", "-3"),
            (true, "max_temp", "31"),
            (true, "target_temp", "24"),
            (false, "fan_speed", "1"),
            (true, "fan_mode", "24"),
        ]
    );
}

#[test]
fn written_settings_read_back() {
    let state = State {
        updated: false,
        mode: Mode::Fan,
        min_temp: i32::MIN,
        max_temp: i32::MAX,
        target_temp: "19".to_string(),
        fan_speed: 0,
        fan_mode: FanMode::Low,
    };
    let w = update_state(&Vec::new(), &state);
    let rows: Vec<Setting> = w
        .iter()
        .map(|w| {
            let (_, n, v) = parts(w);
            row(n, v)
        })
        .collect();
    assert_eq!(check_settings(&rows), Some(SettingsFault::FanMode));
    let without_fan: Vec<Setting> = rows.into_iter().filter(|r| r.name != "fan_mode").collect();
    let back = get_state(&without_fan);
    assert_eq!(back.mode, Mode::Fan);
    assert_eq!(back.min_temp, i32::MIN);
    assert_eq!(back.max_temp, i32::MAX);
    assert_eq!(back.target_temp, "19");
    assert_eq!(back.fan_speed, 0);
}

fn apply(rows: &mut Vec<Setting>, writes: Vec<SettingWrite>) {
    for w in writes {
        match w {
            SettingWrite::Add { name, val } => {
                if rows.iter().all(|r| r.name != name) {
                    rows.push(Setting { name, val });
                }
            }
            SettingWrite::Update { name, val } => {
                for r in rows.iter_mut() {
                    if r.name == name {
                        r.val = val.clone();
                    }
                }
            }
        }
    }
}

#[test]
fn storing_twice_is_storing_once() {
    let state = State {
        updated: true,
        mode: Mode::Heat,
        min_temp: 16,
        max_temp: 29,
        target_temp: "22".to_string(),
        fan_speed: 4,
        fan_mode: FanMode::Medium,
    };
    let mut rows = vec![row("mode", "OFF"), row("other", "x")];
    let w = update_state(&rows, &state);
    apply(&mut rows, w);
    let once: Vec<(String, String)> = rows.iter().map(|r| (r.name.clone(), r.val.clone())).collect();
    let w2 = update_state(&rows, &state);
    assert!(w2.iter().all(|w| matches!(w, SettingWrite::Update { .. })));
    apply(&mut rows, w2);
    let twice: Vec<(String, String)> = rows.iter().map(|r| (r.name.clone(), r.val.clone())).collect();
    assert_eq!(once, twice);
    assert_eq!(rows.len(), 7);
    assert_eq!(get_setting(&rows, "other"), Some("x".to_string()));
    assert_eq!(get_setting(&rows, "fan_mode"), Some("22".to_string()));
    assert_eq!(get_setting(&rows, "min_temp"), Some("16".to_string()));
}
