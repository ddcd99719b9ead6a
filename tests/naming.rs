use submissions_archivarius::naming::archive_name;
use submissions_archivarius::time::CivilTime;

fn civil(year: i32, month: u32, day: u32, hour: u32, minute: u32, second: u32) -> CivilTime {
    CivilTime { year, month, day, hour, minute, second }
}

#[test]
fn name_pads_every_field() {
    assert_eq!(archive_name(civil(2024, 3, 5, 10, 0, 0)), "submissions-20240305-100000.tar.xz");
    assert_eq!(archive_name(civil(2023, 12, 31, 23, 59, 58)), "submissions-20231231-235958.tar.xz");
    assert_eq!(archive_name(civil(7, 1, 2, 3, 4, 5)), "submissions-00070102-030405.tar.xz");
}

#[test]
fn name_signs_years_outside_four_digits() {
    assert_eq!(archive_name(civil(10000, 1, 1, 0, 0, 0)), "submissions-+100000101-000000.tar.xz");
    assert_eq!(archive_name(civil(-1, 1, 1, 0, 0, 0)), "submissions--00010101-000000.tar.xz");
    assert_eq!(archive_name(civil(-262144, 1, 1, 0, 0, 0)), "submissions--2621440101-000000.tar.xz");
    assert_eq!(archive_name(civil(0, 1, 1, 0, 0, 0)), "submissions-00000101-000000.tar.xz");
}

#[test]
fn name_agrees_with_chrono_format() {
    let d = chrono::DateTime::from_timestamp(1_709_632_800, 0).unwrap();
    let expected = format!("submissions-{}.tar.xz", d.format("%Y%m%d-%H%M%S"));
    assert_eq!(archive_name(civil(2024, 3, 5, 10, 0, 0)), expected);
}

#[test]
fn same_reading_same_name() {
    let a = archive_name(civil(2024, 3, 5, 10, 0, 0));
    let b = archive_name(civil(2024, 3, 5, 10, 0, 0));
    assert_eq!(a, b);
    assert_ne!(a, archive_name(civil(2024, 3, 5, 10, 0, 1)));
}
