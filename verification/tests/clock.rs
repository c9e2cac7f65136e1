use chaperone::clock::{unix_time, whole_seconds};
use std::time::{Duration, SystemTime};

#[test]
fn a_time_is_told_in_whole_seconds() {
    assert_eq!(whole_seconds(Ok(Duration::new(5, 999_999_999))).unwrap(), 5);
    assert_eq!(whole_seconds(Ok(Duration::new(0, 0))).unwrap(), 0);
    let later = SystemTime::UNIX_EPOCH + Duration::from_secs(9);
    let before = SystemTime::UNIX_EPOCH.duration_since(later);
    let words = before.clone().unwrap_err().to_string();
    assert_eq!(whole_seconds(before).unwrap_err(), words);
}

#[test]
fn the_clock_stands_between_two_readings() {
    let first = SystemTime::UNIX_EPOCH.elapsed().unwrap().as_secs();
    let told = unix_time().unwrap();
    let second = SystemTime::UNIX_EPOCH.elapsed().unwrap().as_secs();
    assert!(first <= told && told <= second);
}
