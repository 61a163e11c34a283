use lgaircon::ds18b20::{parse_temp, W1Error, DS18B20};

#[test]
fn test_parse_temp() {
    let temp_data = "6e 01 55 05 7f 7e a5 66 f2 : crc=f2 YES
6e 01 55 05 7f 7e a5 66 f2 t=22875"
        .to_string();
    assert_eq!(Ok(22875), parse_temp(temp_data));
}

#[test]
fn parse_temp_trims_and_takes_first_mark() {
    assert_eq!(parse_temp("t= 1234\n".to_string()), Ok(1234));
    assert_eq!(parse_temp("xt=+7 t=9".to_string()).is_err(), true);
    assert_eq!(parse_temp("t=+7".to_string()), Ok(7));
    assert_eq!(parse_temp("a t=0042\t".to_string()), Ok(42));
}

#[test]
fn parse_temp_errors() {
    assert!(parse_temp("t=".to_string()).is_err());
    assert!(parse_temp("t=-125".to_string()).is_err());
    assert!(parse_temp("t=4294967296".to_string()).is_err());
    assert_eq!(parse_temp("t=4294967295".to_string()), Ok(4294967295));
}

fn sensor() -> DS18B20 {
    DS18B20::from_device_name("28-0316a279d2ff".to_string()).unwrap()
}

#[test]
fn device_names() {
    assert_eq!(sensor().w1_id(), "28-0316a279d2ff");
    assert!(DS18B20::from_device_name("w1_bus_master1".to_string()).is_none());
    assert!(DS18B20::from_device_name("10-28-".to_string()).is_some());
    assert!(DS18B20::from_device_name("28".to_string()).is_none());
}

#[test]
fn read_temp_reports() {
    let good = "72 01 4b 46 7f ff 0e 10 57 : crc=57 YES\n72 01 4b 46 7f ff 0e 10 57 t=23125\n";
    let m = sensor().read_temp(good.to_string()).unwrap();
    assert_eq!(m.millis(), 23125);

    let bad_crc = "72 01 4b 46 7f ff 0e 10 57 : crc=57 NO\n72 01 4b 46 7f ff 0e 10 57 t=23125\n";
    assert!(matches!(
        sensor().read_temp(bad_crc.to_string()),
        Err(W1Error::BadSerialConnection)
    ));

    let bad_number = "crc=57 YES\n t=23x\n";
    assert!(matches!(
        sensor().read_temp(bad_number.to_string()),
        Err(W1Error::Parse(_))
    ));
}

#[test]
fn w1_error_from() {
    let e: W1Error = std::io::Error::from(std::io::ErrorKind::NotFound).into();
    assert!(matches!(e, W1Error::Io(_)));
    let p = "x".parse::<u32>().unwrap_err();
    let e: W1Error = p.into();
    assert!(matches!(e, W1Error::Parse(_)));
}
