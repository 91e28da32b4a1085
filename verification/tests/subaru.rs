//! The EJ205 PID table and the wall clock.

use tapiti::obd::parser::Measure;
use tapiti::obd::ObdError;
use tapiti::subaru::{ej205_pids, epoch_millis, make_reading, now_ms, Decoder, PidDef, Priority};

#[test]
fn test_ej205_pids_contains_expected_core_commands() {
    let pids = ej205_pids();
    assert!(!pids.is_empty());

    let rpm = pids.iter().find(|p| p.name == "rpm").expect("rpm exists");
    assert_eq!(rpm.cmd, "010C");
    assert_eq!(rpm.unit, "rpm");
    assert_eq!(rpm.priority, Priority::Critical);

    let iam = pids.iter().find(|p| p.name == "iam").expect("iam exists");
    assert_eq!(iam.cmd, "2101");
    assert_eq!(iam.priority, Priority::Low);
}

#[test]
fn test_make_reading_maps_pid_metadata() {
    let pid = PidDef {
        name: "test_pid",
        cmd: "0100",
        unit: "u",
        priority: Priority::Normal,
        decode: Decoder::MapKpa,
    };
    let before = now_ms();
    let reading = make_reading(&pid, Measure { num: 1234, den: 100 });
    let after = now_ms();

    assert_eq!(reading.pid, "test_pid");
    assert_eq!(reading.unit, "u");
    assert_eq!(reading.value.num as f64 / reading.value.den as f64, 12.34);
    assert!(reading.ts_ms >= before);
    assert!(reading.ts_ms <= after);
}

#[test]
fn test_now_ms_is_monotonic_enough_for_runtime_usage() {
    let a = now_ms();
    let b = now_ms();
    assert!(b >= a);
}

#[test]
fn test_ej205_pids_table_order_and_decoders() {
    let pids = ej205_pids();
    let names: Vec<&str> = pids.iter().map(|p| p.name).collect();
    assert_eq!(
        names,
        vec![
            "rpm", "map", "tps", "maf", "coolant", "iat", "fuel_pres", "load", "knock_fine",
            "knock_learn", "timing", "boost_psi", "iam"
        ]
    );
    assert_eq!(pids[11].unit, "psi");
    assert_eq!(pids[11].decode, Decoder::BoostPsi);
    assert_eq!(pids[4].unit, "°C");
}

#[test]
fn test_decoder_apply_dispatches() {
    let m = Decoder::Rpm.apply(&[0x41, 0x0C, 0x0F, 0xA0]).unwrap();
    assert_eq!((m.num, m.den), (4000, 4));
    assert!(matches!(Decoder::Iam.apply(&[0x61, 0x01]), Err(ObdError::Corrupted(_))));
}

#[test]
fn test_now_ms_is_after_2020() {
    assert!(now_ms() > 1_577_836_800_000);
}

#[test]
fn test_epoch_millis_zero_before_epoch_and_truncated() {
    assert_eq!(epoch_millis(None), 0);
    assert_eq!(epoch_millis(Some(1_700_000_000_123)), 1_700_000_000_123);
    assert_eq!(epoch_millis(Some((1u128 << 64) + 7)), 7);
}
