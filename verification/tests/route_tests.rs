use std::path::PathBuf;

use ingot_core::{build_destination_path, CaptureDate, Target, TargetKind};

fn check_build_target_dir() {
    let target = Target { root: "/test_target_root".into(), kind: TargetKind::LocalNvme, write_permits: 16 };
    let date = CaptureDate::from_ymd(2026, 5, 22).unwrap();
    let got = build_destination_path(&target, date, "card/DCIM/100CANON/IMG_001.CR2");
    assert!(got.is_some());
    assert_eq!(PathBuf::from(got.unwrap()), PathBuf::from("/test_target_root/2026/2026-05-22/IMG_001.CR2"));
}

#[test]
fn route_build_target_dir_test() {
    check_build_target_dir();
}

#[test]
fn lib_build_target_dir_test() {
    check_build_target_dir();
}

#[test]
fn route_pads_month_day_and_early_years() {
    let target = Target { root: "/t".into(), kind: TargetKind::Network, write_permits: 4 };
    let date = CaptureDate::from_ymd(987, 3, 4).unwrap();
    let got = build_destination_path(&target, date, "x/img_9.jpg").unwrap();
    assert_eq!(got, "/t/987/0987-03-04/img_9.jpg");
}

#[test]
fn route_keeps_file_name_case_and_needs_file_name() {
    let target = Target { root: "/t/".into(), kind: TargetKind::LocalSpinning, write_permits: 8 };
    let date = CaptureDate::from_ymd(2024, 2, 29).unwrap();
    assert_eq!(build_destination_path(&target, date, "DCIM/IMG_0001.CR2").unwrap(), "/t/2024/2024-02-29/IMG_0001.CR2");
    assert!(build_destination_path(&target, date, "/").is_none());
    assert!(build_destination_path(&target, date, "a/..").is_none());
}

#[test]
fn route_years_outside_four_digits() {
    let target = Target { root: "r".into(), kind: TargetKind::LocalNvme, write_permits: 1 };
    let date = CaptureDate::from_ymd(-44, 3, 15).unwrap();
    assert_eq!(build_destination_path(&target, date, "f.jpg").unwrap(), "r/-44/-0044-03-15/f.jpg");
    let date = CaptureDate::from_ymd(12345, 12, 31).unwrap();
    assert_eq!(build_destination_path(&target, date, "f.jpg").unwrap(), "r/12345/+12345-12-31/f.jpg");
}

#[test]
fn capture_dates_must_exist() {
    assert!(CaptureDate::from_ymd(2026, 2, 29).is_none());
    assert!(CaptureDate::from_ymd(2024, 2, 29).is_some());
    assert!(CaptureDate::from_ymd(1900, 2, 29).is_none());
    assert!(CaptureDate::from_ymd(2000, 2, 29).is_some());
    assert!(CaptureDate::from_ymd(2026, 4, 31).is_none());
    assert!(CaptureDate::from_ymd(2026, 13, 1).is_none());
    assert!(CaptureDate::from_ymd(2026, 1, 0).is_none());
    assert!(CaptureDate::from_ymd(262142, 12, 31).is_some());
    assert!(CaptureDate::from_ymd(262143, 1, 1).is_none());
    assert!(CaptureDate::from_ymd(-262143, 1, 1).is_some());
    assert!(CaptureDate::from_ymd(-262144, 1, 1).is_none());
    assert!(CaptureDate { year: 2026, month: 6, day: 31 }.is_valid() == false);
}
