use chrono::{DateTime, FixedOffset, TimeZone};
use dsmrlib::dictionary::Role;
use dsmrlib::error::DsmrError;
use dsmrlib::measurement::{Decimal, Measurement};
use dsmrlib::telegram::{
    decode_line, decode_telegram, deserialise_p1_message, split_line, FieldFailure, Reading,
    UsageData,
};
use dsmrlib::timestamp::Timestamp;

fn instant(at: DateTime<FixedOffset>) -> Reading {
    Reading::Timestamp(Timestamp {
        epoch_seconds: at.timestamp(),
        offset_seconds: at.offset().local_minus_utc(),
    })
}

fn quantity(mantissa: u64, scale: usize, unit: &str) -> Reading {
    Reading::Measurement(Measurement { value: Decimal { mantissa, scale }, unit: unit.to_string() })
}

fn as_float(reading: &Reading) -> f64 {
    match reading {
        Reading::Measurement(m) => m.value.mantissa as f64 / 10f64.powi(m.value.scale as i32),
        Reading::Timestamp(_) => panic!("not a measurement"),
    }
}

fn as_date_time(reading: &Reading) -> DateTime<FixedOffset> {
    match reading {
        Reading::Timestamp(t) => FixedOffset::east_opt(t.offset_seconds)
            .unwrap()
            .timestamp_opt(t.epoch_seconds, 0)
            .unwrap(),
        Reading::Measurement(_) => panic!("not a timestamp"),
    }
}

fn lines(text: &[&str]) -> Vec<String> {
    text.iter().map(|l| l.to_string()).collect()
}

fn sample_telegram() -> Vec<String> {
    vec![
        "/ISK5\\2M550E-1012".to_string(),
        "".to_string(),
        "1-3:0.2.8(50)".to_string(),
        "0-0:1.0.0(201221010833W)".to_string(),
        "0-0:96.1.1(123456)".to_string(),
        "1-0:1.8.1(002134.177*kWh)".to_string(),
        "1-0:1.8.2(003448.211*kWh)".to_string(),
        "1-0:2.8.1(000000.000*kWh)".to_string(),
        "1-0:2.8.2(000000.000*kWh)".to_string(),
        "0-0:96.14.0(0001)".to_string(),
        "1-0:1.7.0(00.229*kW)".to_string(),
        "1-0:2.7.0(00.000*kW)".to_string(),
        "0-0:96.7.21(00012)".to_string(),
        "0-0:96.7.9(00002)".to_string(),
        "1-0:99.97.0()".to_string(),
        "1-0:32.32.0(00012)".to_string(),
        "1-0:32.36.0(00001)".to_string(),
        "0-0:96.13.0()".to_string(),
        "1-0:32.7.0(236.7*V)".to_string(),
        "1-0:31.7.0(001*A)".to_string(),
        "1-0:21.7.0(00.220*kW)".to_string(),
        "1-0:22.7.0(00.000*kW)".to_string(),
        "0-1:24.1.0(003)".to_string(),
        "0-1:96.1.0(123456)".to_string(),
        "0-1:24.2.1(101221010511W)(03799.479*m3)".to_string(),
    ]
}

/// The ten lines that fill the snapshot, in the order of the telegram.
fn required_lines() -> Vec<(&'static str, Role)> {
    vec![
        ("0-0:1.0.0(201221010833W)", Role::ElectricityTimestamp),
        ("1-0:1.8.1(002134.177*kWh)", Role::EnergyLowIn),
        ("1-0:1.8.2(003448.211*kWh)", Role::EnergyNormalIn),
        ("1-0:2.8.1(000000.000*kWh)", Role::EnergyLowOut),
        ("1-0:2.8.2(000000.000*kWh)", Role::EnergyNormalOut),
        ("1-0:1.7.0(00.229*kW)", Role::PowerIn),
        ("1-0:2.7.0(00.000*kW)", Role::PowerOut),
        ("1-0:32.7.0(236.7*V)", Role::Voltage),
        ("1-0:31.7.0(001*A)", Role::Current),
        ("0-1:24.2.1(101221010511W)(03799.479*m3)", Role::GasReading),
    ]
}

fn expected_snapshot() -> UsageData {
    UsageData {
        electricity_timestamp: Reading::Timestamp(Timestamp {
            epoch_seconds: 1608509313,
            offset_seconds: 3600,
        }),
        power_receiving: quantity(229, 3, "kW"),
        power_returning: quantity(0, 3, "kW"),
        electricity_returned_reading_low_tariff: quantity(0, 3, "kWh"),
        electricity_returned_reading_normal_tariff: quantity(0, 3, "kWh"),
        electricity_reading_low_tariff: quantity(2134177, 3, "kWh"),
        electricity_reading_normal_tariff: quantity(3448211, 3, "kWh"),
        gas_reading: quantity(3799479, 3, "m3"),
        gas_timestamp: Reading::Timestamp(Timestamp {
            epoch_seconds: 1292889911,
            offset_seconds: 3600,
        }),
        voltage: quantity(2367, 1, "V"),
        current: quantity(1, 0, "A"),
    }
}

fn check_values(status: &UsageData) {
    assert_eq!(as_float(&status.power_receiving), 0.229);
    assert_eq!(as_float(&status.power_returning), 0.0);
    assert_eq!(as_float(&status.electricity_returned_reading_low_tariff), 0.0);
    assert_eq!(as_float(&status.electricity_returned_reading_normal_tariff), 0.0);
    assert_eq!(as_float(&status.electricity_reading_low_tariff), 2134.177);
    assert_eq!(as_float(&status.electricity_reading_normal_tariff), 3448.211);
    assert_eq!(as_float(&status.gas_reading), 3799.479);
    assert_eq!(as_float(&status.voltage), 236.7);
    assert_eq!(as_float(&status.current), 1.0);
}

#[test]
fn dsmrlib_test_p1_deserialise() {
    let message = sample_telegram();

    let result = deserialise_p1_message(message);

    let expected_data = UsageData {
        electricity_timestamp: instant(
            FixedOffset::east_opt(1 * 3600)
                .unwrap()
                .with_ymd_and_hms(2020, 12, 21, 1, 8, 33)
                .unwrap(),
        ),
        power_receiving: quantity(229, 3, "kW"),
        power_returning: quantity(0, 3, "kW"),
        electricity_returned_reading_low_tariff: quantity(0, 3, "kWh"),
        electricity_returned_reading_normal_tariff: quantity(0, 3, "kWh"),
        electricity_reading_low_tariff: quantity(2134177, 3, "kWh"),
        electricity_reading_normal_tariff: quantity(3448211, 3, "kWh"),
        gas_reading: quantity(3799479, 3, "m3"),
        gas_timestamp: instant(
            FixedOffset::east_opt(1 * 3600)
                .unwrap()
                .with_ymd_and_hms(2010, 12, 21, 1, 5, 11)
                .unwrap(),
        ),
        voltage: quantity(2367, 1, "V"),
        current: quantity(1, 0, "A"),
    };
    match result {
        Ok(status) => {
            assert_eq!(status, expected_data);
            check_values(&status);
        }
        Err(e) => panic!("{:?}", e),
    };
}

#[test]
#[allow(deprecated)]
fn tests_test_p1_deserialise() {
    let message = sample_telegram();

    let result = deserialise_p1_message(message);

    let expected_data = UsageData {
        electricity_timestamp: instant(
            FixedOffset::east(1 * 3600).ymd(2020, 12, 21).and_hms(1, 8, 33),
        ),
        power_receiving: quantity(229, 3, "kW"),
        power_returning: quantity(0, 3, "kW"),
        electricity_returned_reading_low_tariff: quantity(0, 3, "kWh"),
        electricity_returned_reading_normal_tariff: quantity(0, 3, "kWh"),
        electricity_reading_low_tariff: quantity(2134177, 3, "kWh"),
        electricity_reading_normal_tariff: quantity(3448211, 3, "kWh"),
        gas_reading: quantity(3799479, 3, "m3"),
        gas_timestamp: instant(FixedOffset::east(1 * 3600).ymd(2010, 12, 21).and_hms(1, 5, 11)),
        voltage: quantity(2367, 1, "V"),
        current: quantity(1, 0, "A"),
    };
    match result {
        Ok(status) => {
            assert_eq!(status, expected_data);
            check_values(&status);
        }
        Err(e) => panic!("{:?}", e),
    };
}

#[test]
fn snapshot_has_the_expected_plain_values() {
    let status = deserialise_p1_message(sample_telegram()).unwrap();
    assert_eq!(status, expected_snapshot());
    assert_eq!(
        as_date_time(&status.electricity_timestamp).to_rfc3339(),
        "2020-12-21T01:08:33+01:00"
    );
    assert_eq!(as_date_time(&status.gas_timestamp).to_rfc3339(), "2010-12-21T01:05:11+01:00");
}

#[test]
fn telegram_missing_one_required_field_is_incomplete() {
    let all = required_lines();
    for skip in 0..all.len() {
        let mut message = vec!["/ISK5\\2M550E-1012".to_string()];
        for (i, (line, _)) in all.iter().enumerate() {
            if i != skip {
                message.push(line.to_string());
            }
        }
        assert_eq!(
            deserialise_p1_message(message),
            Err(DsmrError::IncompleteTelegram(all[skip].1))
        );
    }
}

#[test]
fn first_missing_field_in_snapshot_order_is_named() {
    assert_eq!(
        deserialise_p1_message(Vec::new()),
        Err(DsmrError::IncompleteTelegram(Role::ElectricityTimestamp))
    );
    let message = lines(&["0-0:1.0.0(201221010833W)", "1-0:31.7.0(001*A)"]);
    assert_eq!(deserialise_p1_message(message), Err(DsmrError::IncompleteTelegram(Role::PowerIn)));
    let message = lines(&[
        "0-0:1.0.0(201221010833W)",
        "1-0:1.7.0(00.229*kW)",
        "1-0:2.7.0(00.000*kW)",
        "1-0:1.8.1(002134.177*kWh)",
    ]);
    assert_eq!(
        deserialise_p1_message(message),
        Err(DsmrError::IncompleteTelegram(Role::EnergyLowOut))
    );
}

#[test]
fn order_of_lines_does_not_matter() {
    let canonical: Vec<String> = required_lines().iter().map(|(l, _)| l.to_string()).collect();
    let expected = deserialise_p1_message(canonical.clone());
    assert_eq!(expected, Ok(expected_snapshot()));

    let mut reversed = canonical.clone();
    reversed.reverse();
    assert_eq!(deserialise_p1_message(reversed), expected);

    let mut rotated = canonical.clone();
    for _ in 0..canonical.len() {
        rotated.rotate_left(1);
        assert_eq!(deserialise_p1_message(rotated.clone()), expected);
    }

    let mut interleaved = Vec::new();
    for i in 0..5 {
        interleaved.push(canonical[9 - i].clone());
        interleaved.push("0-0:96.1.1(123456)".to_string());
        interleaved.push(canonical[i].clone());
    }
    assert_eq!(deserialise_p1_message(interleaved), expected);
}

#[test]
fn malformed_gas_measurement_drops_the_whole_snapshot() {
    let mut message: Vec<String> = required_lines().iter().map(|(l, _)| l.to_string()).collect();
    message[9] = "0-1:24.2.1(101221010511W)(03799.479m3)".to_string();

    let fields = decode_line(&message[9]);
    assert_eq!(fields.role, Role::GasReading);
    assert_eq!(
        fields.timestamp,
        Some(Ok(Timestamp { epoch_seconds: 1292889911, offset_seconds: 3600 }))
    );
    assert_eq!(fields.measurement, Some(Err(DsmrError::MalformedMeasurement)));

    for line in &message[0..9] {
        let fields = decode_line(line);
        let decoded = matches!(fields.timestamp, Some(Ok(_)))
            || matches!(fields.measurement, Some(Ok(_)));
        assert!(decoded);
    }

    let decoded = decode_telegram(&message);
    assert_eq!(decoded.snapshot, Err(DsmrError::IncompleteTelegram(Role::GasReading)));
    assert_eq!(
        decoded.dropped,
        vec![FieldFailure {
            line: 9,
            role: Role::GasReading,
            error: DsmrError::MalformedMeasurement
        }]
    );
    assert_eq!(
        deserialise_p1_message(message),
        Err(DsmrError::IncompleteTelegram(Role::GasReading))
    );
}

#[test]
fn malformed_gas_timestamp_drops_the_whole_snapshot() {
    let mut message: Vec<String> = required_lines().iter().map(|(l, _)| l.to_string()).collect();
    message[9] = "0-1:24.2.1(101221010511X)(03799.479*m3)".to_string();
    let decoded = decode_telegram(&message);
    assert_eq!(decoded.snapshot, Err(DsmrError::IncompleteTelegram(Role::GasReading)));
    assert_eq!(
        decoded.dropped,
        vec![FieldFailure {
            line: 9,
            role: Role::GasReading,
            error: DsmrError::MalformedTimestamp
        }]
    );
}

#[test]
fn gas_line_with_one_payload_has_no_reading() {
    let fields = decode_line("0-1:24.2.1(101221010511W)");
    assert_eq!(fields.role, Role::GasReading);
    assert_eq!(
        fields.timestamp,
        Some(Ok(Timestamp { epoch_seconds: 1292889911, offset_seconds: 3600 }))
    );
    assert_eq!(fields.measurement, Some(Err(DsmrError::MalformedMeasurement)));
}

#[test]
fn malformed_electricity_timestamp_is_reported_and_dropped() {
    let mut message: Vec<String> = required_lines().iter().map(|(l, _)| l.to_string()).collect();
    message[0] = "0-0:1.0.0(201321010833W)".to_string();
    let decoded = decode_telegram(&message);
    assert_eq!(decoded.snapshot, Err(DsmrError::IncompleteTelegram(Role::ElectricityTimestamp)));
    assert_eq!(
        decoded.dropped,
        vec![FieldFailure {
            line: 0,
            role: Role::ElectricityTimestamp,
            error: DsmrError::MalformedTimestamp
        }]
    );
}

#[test]
fn sample_telegram_drops_no_field() {
    let decoded = decode_telegram(&sample_telegram());
    assert_eq!(decoded.snapshot, Ok(expected_snapshot()));
    assert_eq!(decoded.dropped, Vec::new());
}

#[test]
fn later_line_of_a_role_wins_and_a_malformed_one_changes_nothing() {
    let mut message: Vec<String> = required_lines().iter().map(|(l, _)| l.to_string()).collect();
    message.push("1-0:32.7.0(229.1*V)".to_string());
    let status = deserialise_p1_message(message.clone()).unwrap();
    assert_eq!(status.voltage, quantity(2291, 1, "V"));

    message.push("1-0:32.7.0(x*V)".to_string());
    let decoded = decode_telegram(&message);
    assert_eq!(decoded.snapshot.unwrap().voltage, quantity(2291, 1, "V"));
    assert_eq!(
        decoded.dropped,
        vec![FieldFailure { line: 11, role: Role::Voltage, error: DsmrError::MalformedMeasurement }]
    );
}

#[test]
fn lines_that_are_not_consumed_are_ignored() {
    for line in [
        "",
        "/ISK5\\2M550E-1012",
        "!5C6B",
        "1-3:0.2.8(50)",
        "0-0:96.1.1(4530303433303036393939363136373137)",
        "1-0:99.97.0(2)(0-0:96.7.19)(220306205206W)(0000003909*s)(221224033820W)(0000016195*s)",
        "1-0:21.7.0(00.220*kW)",
        "0-0:1.0.0",
        " 1-0:1.7.0(00.229*kW)",
    ] {
        let fields = decode_line(line);
        assert_eq!(fields.role, Role::Unrecognized);
        assert_eq!(fields.timestamp, None);
        assert_eq!(fields.measurement, None);
    }
}

#[test]
fn payload_without_unit_on_a_measurement_role_is_ignored() {
    let fields = decode_line("1-0:1.7.0(00229)");
    assert_eq!(fields.role, Role::PowerIn);
    assert_eq!(fields.timestamp, None);
    assert_eq!(fields.measurement, None);

    let fields = decode_line("1-0:1.7.0()");
    assert_eq!(fields.measurement, None);

    let fields = decode_line("1-0:1.7.0(abc*kW)");
    assert_eq!(fields.measurement, Some(Err(DsmrError::MalformedMeasurement)));
}

#[test]
fn line_is_split_at_each_opening_bracket() {
    let parts = split_line("0-1:24.2.1(101221010511W)(03799.479*m3)").unwrap();
    assert_eq!(parts.identifier, "0-1:24.2.1");
    assert_eq!(parts.first, "101221010511W");
    assert_eq!(parts.second, "03799.479*m3");

    let parts = split_line("1-0:1.7.0(00.229*kW)").unwrap();
    assert_eq!(parts.identifier, "1-0:1.7.0");
    assert_eq!(parts.first, "00.229*kW");
    assert_eq!(parts.second, "");

    let parts = split_line("x(a(b(c)").unwrap();
    assert_eq!(parts.identifier, "x");
    assert_eq!(parts.first, "a");
    assert_eq!(parts.second, "b");

    let parts = split_line("x(").unwrap();
    assert_eq!(parts.identifier, "x");
    assert_eq!(parts.first, "");
    assert_eq!(parts.second, "");

    let parts = split_line("(é))(ü").unwrap();
    assert_eq!(parts.identifier, "");
    assert_eq!(parts.first, "é)");
    assert_eq!(parts.second, "ü");

    assert!(split_line("no bracket)").is_none());
    assert!(split_line("").is_none());
}
