use segmux::camera::{Camera, CamerasMetadata};
use segmux::clock::{
    compose_name, drain_deadline, get_name, get_next_time, get_time, is_valid_offset, WallTime,
    LAST_BOUNDARY_SECONDS, MAX_LOCAL_SECONDS, MAX_OFFSET_SECONDS, MIN_LOCAL_SECONDS,
    ROTATION_PERIOD_MINUTES, ROTATION_PERIOD_SECONDS, TIME_STOP_LAG,
};
use time::{Duration, OffsetDateTime, UtcOffset};

/// Midnight of 15 November 2023, UTC.
const DAY: i64 = 1_700_006_400;

fn at(hour: i64, minute: i64, second: i64) -> WallTime {
    WallTime::new(DAY + hour * 3600 + minute * 60 + second, 0, 0).unwrap()
}

fn camera(name: &str) -> Camera {
    Camera { name: name.to_string(), url: "rtsp://camera/stream".to_string() }
}

fn meta(folder: &str, time_format: &str) -> CamerasMetadata {
    CamerasMetadata { folder: folder.to_string(), time_format: time_format.to_string(), offset: 0 }
}

/// The boundary as the `time` crate computes it, part by part.
fn boundary_by_parts(reading: &WallTime) -> OffsetDateTime {
    let offset = UtcOffset::from_whole_seconds(reading.offset).unwrap();
    let now = OffsetDateTime::from_unix_timestamp(reading.seconds)
        .unwrap()
        .replace_nanosecond(reading.nanosecond)
        .unwrap()
        .to_offset(offset);
    let minute = (now.minute() + 9) / 10 * 10;
    let next = if minute >= 60 {
        now.replace_minute(0).unwrap() + Duration::HOUR
    } else {
        now.replace_minute(minute).unwrap()
    };
    next.replace_second(0).unwrap().replace_nanosecond(0).unwrap()
}

/// The reading as a date and time of the `time` crate.
fn by_crate(reading: &WallTime) -> OffsetDateTime {
    OffsetDateTime::from_unix_timestamp(reading.seconds)
        .unwrap()
        .replace_nanosecond(reading.nanosecond)
        .unwrap()
        .to_offset(UtcOffset::from_whole_seconds(reading.offset).unwrap())
}

fn same(reading: &WallTime, expected: &OffsetDateTime) -> bool {
    reading.seconds == expected.unix_timestamp()
        && reading.nanosecond == expected.nanosecond()
        && reading.offset == expected.offset().whole_seconds()
}

/// Readings spread over the range, in several offsets.
fn samples() -> Vec<WallTime> {
    let offsets = [0, 3_600, -3_600, 20_700, -1_770, 93_599, -93_599, 59, -1];
    let starts = [DAY, 0, -86_400 * 365 * 300, 951_782_400, 4_102_444_800, -62_135_596_800];
    let mut readings = vec![];
    for offset in offsets {
        for start in starts {
            for step in 0..200i64 {
                let nanosecond = (step as u32 % 3) * 499_999_999;
                readings.push(WallTime::new(start + step * 37, nanosecond, offset).unwrap());
            }
        }
    }
    readings.push(WallTime::new(MIN_LOCAL_SECONDS, 0, 0).unwrap());
    readings.push(WallTime::new(MAX_LOCAL_SECONDS, 999_999_999, 0).unwrap());
    readings.push(WallTime::new(MAX_LOCAL_SECONDS - 93_599, 0, 93_599).unwrap());
    readings.push(WallTime::new(MIN_LOCAL_SECONDS + 93_599, 0, -93_599).unwrap());
    readings
}

#[test]
fn minute_and_second_are_those_of_the_local_clock() {
    assert_eq!(at(12, 3, 7).minute(), 3);
    assert_eq!(at(12, 3, 7).second(), 7);
    assert_eq!(at(23, 59, 59).minute(), 59);
    assert_eq!(at(23, 59, 59).second(), 59);
    let shifted = WallTime::new(DAY + 12 * 3600, 0, 20_700).unwrap();
    assert_eq!(shifted.minute(), 45);
    let before_epoch = WallTime::new(-1, 0, 0).unwrap();
    assert_eq!(before_epoch.minute(), 59);
    assert_eq!(before_epoch.second(), 59);
    for reading in samples() {
        assert_eq!(reading.minute(), by_crate(&reading).minute());
        assert_eq!(reading.second(), by_crate(&reading).second());
    }
}

#[test]
fn replace_minute_stays_in_the_hour() {
    assert_eq!(at(12, 3, 7).replace_minute(0), Some(at(12, 0, 7)));
    assert_eq!(at(12, 3, 7).replace_minute(59), Some(at(12, 59, 7)));
    assert_eq!(at(12, 3, 7).replace_minute(3), Some(at(12, 3, 7)));
    assert_eq!(at(12, 3, 7).replace_minute(60), None);
    assert_eq!(at(12, 3, 7).replace_minute(255), None);
    for reading in samples() {
        for minute in [0u8, 10, 37, 59] {
            let expected = by_crate(&reading).replace_minute(minute).unwrap();
            assert!(same(&reading.replace_minute(minute).unwrap(), &expected));
        }
        assert!(by_crate(&reading).replace_minute(60).is_err());
    }
}

#[test]
fn replace_second_stays_in_the_minute() {
    assert_eq!(at(12, 3, 7).replace_second(0), Some(at(12, 3, 0)));
    assert_eq!(at(12, 3, 7).replace_second(59), Some(at(12, 3, 59)));
    assert_eq!(at(12, 3, 7).replace_second(60), None);
    for reading in samples() {
        for second in [0u8, 1, 30, 59] {
            let expected = by_crate(&reading).replace_second(second).unwrap();
            assert!(same(&reading.replace_second(second).unwrap(), &expected));
        }
        assert!(by_crate(&reading).replace_second(60).is_err());
    }
}

#[test]
fn replace_nanosecond_stays_in_the_second() {
    let reading = WallTime::new(DAY, 5, 60).unwrap();
    assert_eq!(reading.replace_nanosecond(0), WallTime::new(DAY, 0, 60));
    assert_eq!(reading.replace_nanosecond(999_999_999), WallTime::new(DAY, 999_999_999, 60));
    assert_eq!(reading.replace_nanosecond(1_000_000_000), None);
    assert!(by_crate(&reading).replace_nanosecond(1_000_000_000).is_err());
}

#[test]
fn checked_add_seconds_stops_at_the_ends_of_the_range() {
    assert_eq!(at(12, 3, 7).checked_add_seconds(3_600), Some(at(13, 3, 7)));
    assert_eq!(at(12, 3, 7).checked_add_seconds(-7), Some(at(12, 3, 0)));
    assert_eq!(at(12, 3, 7).checked_add_seconds(0), Some(at(12, 3, 7)));
    let last = WallTime::new(MAX_LOCAL_SECONDS, 0, 0).unwrap();
    assert_eq!(last.checked_add_seconds(1), None);
    assert_eq!(last.checked_add_seconds(i64::MAX), None);
    assert_eq!(last.checked_add_seconds(i64::MIN), None);
    let first = WallTime::new(MIN_LOCAL_SECONDS, 0, 0).unwrap();
    assert_eq!(first.checked_add_seconds(-1), None);
    assert_eq!(first.checked_add_seconds(MAX_LOCAL_SECONDS - MIN_LOCAL_SECONDS), Some(last));
    for reading in samples() {
        for seconds in [3_600i64, 5, -86_400, 1_000_000_000_000] {
            let expected = by_crate(&reading).checked_add(Duration::seconds(seconds));
            match reading.checked_add_seconds(seconds) {
                Some(sum) => assert!(same(&sum, &expected.unwrap())),
                None => assert!(expected.is_none()),
            }
        }
    }
}

#[test]
fn period_and_grace_are_ten_minutes_and_five_seconds() {
    assert_eq!(ROTATION_PERIOD_MINUTES, 10);
    assert_eq!(ROTATION_PERIOD_SECONDS, 600);
    assert_eq!(TIME_STOP_LAG, 5);
}

#[test]
fn boundary_of_a_plain_minute_is_the_next_mark() {
    assert_eq!(get_next_time(&at(12, 3, 0)), at(12, 10, 0));
    assert_eq!(get_next_time(&at(12, 9, 59)), at(12, 10, 0));
    assert_eq!(get_next_time(&at(12, 11, 0)), at(12, 20, 0));
    assert_eq!(get_next_time(&at(12, 49, 1)), at(12, 50, 0));
}

#[test]
fn boundary_of_a_mark_is_the_mark() {
    assert_eq!(get_next_time(&at(12, 10, 0)), at(12, 10, 0));
    assert_eq!(get_next_time(&at(0, 0, 0)), at(0, 0, 0));
}

#[test]
fn boundary_inside_the_minute_of_a_mark_is_that_mark() {
    assert_eq!(get_next_time(&at(12, 10, 30)), at(12, 10, 0));
    assert_eq!(get_next_time(&at(12, 10, 1)), at(12, 10, 0));
    let just_after = WallTime::new(DAY + 12 * 3600, 1, 0).unwrap();
    assert_eq!(get_next_time(&just_after), at(12, 0, 0));
}

#[test]
fn boundary_after_minute_fifty_is_the_next_hour() {
    assert_eq!(get_next_time(&at(12, 51, 0)), at(13, 0, 0));
    assert_eq!(get_next_time(&at(12, 59, 59)), at(13, 0, 0));
    assert_eq!(get_next_time(&at(12, 50, 0)), at(12, 50, 0));
}

#[test]
fn boundary_after_the_last_mark_of_a_day_is_midnight() {
    assert_eq!(get_next_time(&at(23, 55, 0)), at(24, 0, 0));
    assert_eq!(at(24, 0, 0).seconds, DAY + 86_400);
}

#[test]
fn boundary_drops_the_fraction_of_a_second() {
    let reading = WallTime::new(DAY + 12 * 3600 + 9 * 60 + 59, 999_999_999, 0).unwrap();
    assert_eq!(get_next_time(&reading), at(12, 10, 0));
}

#[test]
fn boundary_lies_on_the_local_clock() {
    // 12:03 UTC is 17:48 at +05:45; the mark 17:50 there is 12:05 UTC.
    let reading = WallTime::new(DAY + 12 * 3600 + 3 * 60, 0, 20_700).unwrap();
    let expected = WallTime::new(DAY + 12 * 3600 + 5 * 60, 0, 20_700).unwrap();
    assert_eq!(get_next_time(&reading), expected);
    // 12:03 UTC is 11:33:30 at -00:29:30; the mark 11:40 there is 12:09:30 UTC.
    let reading = WallTime::new(DAY + 12 * 3600 + 3 * 60, 0, -1_770).unwrap();
    let expected = WallTime::new(DAY + 12 * 3600 + 9 * 60 + 30, 0, -1_770).unwrap();
    assert_eq!(get_next_time(&reading), expected);
}

#[test]
fn boundary_before_the_epoch() {
    let reading = WallTime::new(-300, 0, 0).unwrap();
    assert_eq!(get_next_time(&reading), WallTime::new(0, 0, 0).unwrap());
    let reading = WallTime::new(-1, 0, 0).unwrap();
    assert_eq!(get_next_time(&reading), WallTime::new(0, 0, 0).unwrap());
    let reading = WallTime::new(-601, 0, 0).unwrap();
    assert_eq!(get_next_time(&reading), WallTime::new(-600, 0, 0).unwrap());
    let reading = WallTime::new(-3_599, 500, 0).unwrap();
    assert_eq!(get_next_time(&reading), WallTime::new(-3_600, 0, 0).unwrap());
}

#[test]
fn boundary_is_the_least_mark_not_before_the_reading() {
    for second in 0..86_400i64 {
        let reading = WallTime::new(DAY + second, 0, 0).unwrap();
        let boundary = get_next_time(&reading);
        assert_eq!(boundary.nanosecond, 0);
        assert_eq!(boundary.offset, 0);
        assert_eq!(boundary.seconds % 600, 0);
        let inside_boundary_minute = (second / 60) % 10 == 0 && second % 60 > 0;
        if inside_boundary_minute {
            assert_eq!(boundary.seconds, DAY + second - second % 60);
        } else {
            assert!(boundary.seconds >= reading.seconds);
            assert!(boundary.seconds - reading.seconds < 600);
            assert_eq!(boundary.seconds, DAY + (second + 599) / 600 * 600);
        }
    }
}

#[test]
fn boundary_of_a_later_reading_is_one_period_on() {
    let first = get_next_time(&at(12, 3, 0));
    assert_eq!(first, at(12, 10, 0));
    for second in 60..=600i64 {
        let later = WallTime::new(first.seconds + second, 0, 0).unwrap();
        assert_eq!(get_next_time(&later), at(12, 20, 0));
    }
    let later = WallTime::new(first.seconds + 60, 1, 0).unwrap();
    assert_eq!(get_next_time(&later), at(12, 20, 0));
    assert_eq!(get_next_time(&get_next_time(&at(12, 3, 0))), at(12, 10, 0));
}

#[test]
fn boundary_agrees_with_the_time_crate() {
    let offsets = [0, 3_600, -3_600, 20_700, -1_770, 93_599, -93_599, 59, -1];
    let starts = [DAY, 0, -86_400 * 365 * 300, 951_782_400, 4_102_444_800, -62_135_596_800];
    for offset in offsets {
        for start in starts {
            for step in 0..400i64 {
                let seconds = start + step * 37;
                let nanosecond = (step as u32 % 3) * 499_999_999;
                let reading = WallTime::new(seconds, nanosecond, offset).unwrap();
                let expected = boundary_by_parts(&reading);
                let boundary = get_next_time(&reading);
                assert_eq!(boundary.seconds, expected.unix_timestamp());
                assert_eq!(boundary.nanosecond, expected.nanosecond());
                assert_eq!(boundary.offset, expected.offset().whole_seconds());
            }
        }
    }
}

#[test]
fn drain_deadline_is_five_seconds_after_the_boundary() {
    assert_eq!(drain_deadline(&at(12, 10, 0)), at(12, 10, 5));
    assert_eq!(drain_deadline(&at(23, 59, 58)), at(24, 0, 3));
    let boundary = WallTime::new(DAY, 7, 3_600).unwrap();
    assert_eq!(drain_deadline(&boundary), WallTime::new(DAY + 5, 7, 3_600).unwrap());
}

#[test]
fn reading_is_refused_outside_its_range() {
    assert!(WallTime::new(0, 0, 0).is_some());
    assert!(WallTime::new(0, 999_999_999, 0).is_some());
    assert!(WallTime::new(0, 1_000_000_000, 0).is_none());
    assert!(WallTime::new(0, 0, MAX_OFFSET_SECONDS).is_some());
    assert!(WallTime::new(0, 0, MAX_OFFSET_SECONDS + 1).is_none());
    assert!(WallTime::new(0, 0, -MAX_OFFSET_SECONDS).is_some());
    assert!(WallTime::new(0, 0, -MAX_OFFSET_SECONDS - 1).is_none());
    assert!(WallTime::new(MAX_LOCAL_SECONDS, 0, 0).is_some());
    assert!(WallTime::new(MAX_LOCAL_SECONDS + 1, 0, 0).is_none());
    assert!(WallTime::new(MIN_LOCAL_SECONDS, 0, 0).is_some());
    assert!(WallTime::new(MIN_LOCAL_SECONDS - 1, 0, 0).is_none());
    assert!(WallTime::new(MAX_LOCAL_SECONDS, 0, 1).is_none());
    assert!(WallTime::new(MAX_LOCAL_SECONDS + 1, 0, -1).is_some());
    assert!(WallTime::new(i64::MAX, 0, 0).is_none());
    assert!(WallTime::new(i64::MIN, 0, 0).is_none());
}

#[test]
fn range_of_readings_is_that_of_the_time_crate() {
    assert!(OffsetDateTime::from_unix_timestamp(MAX_LOCAL_SECONDS).is_ok());
    assert!(OffsetDateTime::from_unix_timestamp(MAX_LOCAL_SECONDS + 1).is_err());
    assert!(OffsetDateTime::from_unix_timestamp(MIN_LOCAL_SECONDS).is_ok());
    assert!(OffsetDateTime::from_unix_timestamp(MIN_LOCAL_SECONDS - 1).is_err());
    assert!(UtcOffset::from_whole_seconds(MAX_OFFSET_SECONDS).is_ok());
    assert!(UtcOffset::from_whole_seconds(MAX_OFFSET_SECONDS + 1).is_err());
    assert!(UtcOffset::from_whole_seconds(-MAX_OFFSET_SECONDS).is_ok());
    assert!(UtcOffset::from_whole_seconds(-MAX_OFFSET_SECONDS - 1).is_err());
    let last = OffsetDateTime::from_unix_timestamp(LAST_BOUNDARY_SECONDS).unwrap();
    assert_eq!((last.year(), last.ordinal()), (9999, 365));
    assert_eq!((last.hour(), last.minute(), last.second()), (23, 50, 0));
}

#[test]
fn offset_is_valid_up_to_a_second_under_twenty_six_hours() {
    assert!(is_valid_offset(0));
    assert!(is_valid_offset(93_599));
    assert!(is_valid_offset(-93_599));
    assert!(!is_valid_offset(93_600));
    assert!(!is_valid_offset(-93_600));
    assert!(!is_valid_offset(i32::MAX));
    assert!(!is_valid_offset(i32::MIN));
}

#[test]
fn reading_is_rotatable_up_to_the_last_boundary() {
    assert!(at(12, 0, 0).is_rotatable());
    let last = WallTime::new(LAST_BOUNDARY_SECONDS, 999_999_999, 0).unwrap();
    assert!(last.is_rotatable());
    assert_eq!(get_next_time(&last), WallTime::new(LAST_BOUNDARY_SECONDS, 0, 0).unwrap());
    assert!(drain_deadline(&get_next_time(&last)).seconds <= MAX_LOCAL_SECONDS);
    let late = WallTime::new(LAST_BOUNDARY_SECONDS + 1, 0, 0).unwrap();
    assert!(!late.is_rotatable());
    let shifted = WallTime::new(LAST_BOUNDARY_SECONDS, 0, 1).unwrap();
    assert!(!shifted.is_rotatable());
    let unformed = WallTime { seconds: 0, nanosecond: 2_000_000_000, offset: 0 };
    assert!(!unformed.is_rotatable());
}

#[test]
fn reached_orders_by_the_instant() {
    assert!(at(12, 10, 0).reached(&at(12, 10, 0)));
    assert!(at(12, 10, 1).reached(&at(12, 10, 0)));
    assert!(!at(12, 9, 59).reached(&at(12, 10, 0)));
    let early = WallTime::new(DAY, 1, 0).unwrap();
    let late = WallTime::new(DAY, 2, 0).unwrap();
    assert!(late.reached(&early));
    assert!(!early.reached(&late));
    // One instant read in two offsets.
    let here = WallTime::new(DAY, 0, 0).unwrap();
    let there = WallTime::new(DAY, 0, 7_200).unwrap();
    assert!(here.reached(&there));
    assert!(there.reached(&here));
    assert_ne!(here, there);
}

#[test]
fn replace_offset_keeps_the_local_clock() {
    let utc = at(12, 3, 0);
    let shifted = utc.replace_offset(3_600);
    assert_eq!(shifted, WallTime::new(DAY + 11 * 3600 + 3 * 60, 0, 3_600).unwrap());
    let by_crate = OffsetDateTime::from_unix_timestamp(utc.seconds)
        .unwrap()
        .replace_offset(UtcOffset::from_whole_seconds(3_600).unwrap());
    assert_eq!(shifted.seconds, by_crate.unix_timestamp());
    assert_eq!(utc.replace_offset(0), utc);
    assert_eq!(shifted.replace_offset(-60).seconds, DAY + 12 * 3600 + 4 * 60);
}

#[test]
fn get_time_reads_a_present_clock_in_the_offset() {
    let before = OffsetDateTime::now_utc().unix_timestamp();
    let now = get_time(0);
    let after = OffsetDateTime::now_utc().unix_timestamp();
    assert_eq!(now.offset, 0);
    assert!(now.nanosecond < 1_000_000_000);
    assert!(before <= now.seconds && now.seconds <= after);
    assert!(now.is_rotatable());
    let east = get_time(7_200);
    assert_eq!(east.offset, 7_200);
    assert!(before - 7_200 <= east.seconds && east.seconds <= after + 1 - 7_200);
}

#[test]
fn compose_name_joins_folder_time_camera_and_extension() {
    assert_eq!(compose_name("/var/cam", "2023-11-15_12-03", "gate"), "/var/cam/2023-11-15_12-03_gate.mkv");
    assert_eq!(compose_name("", "", ""), "/_.mkv");
    assert_eq!(compose_name("a/b", "t", "c_d"), "a/b/t_c_d.mkv");
}

#[test]
fn get_name_formats_the_reading() {
    let name = get_name(
        &at(12, 3, 0),
        &camera("gate"),
        &meta("/var/cam", "[year]-[month]-[day]_[hour]-[minute]-[second]"),
    );
    assert_eq!(name, Some("/var/cam/2023-11-15_12-03-00_gate.mkv".to_string()));
    let name = get_name(&at(12, 10, 1), &camera("yard"), &meta("rec", "[hour][minute]"));
    assert_eq!(name, Some("rec/1210_yard.mkv".to_string()));
}

#[test]
fn get_name_shows_the_local_clock() {
    let reading = WallTime::new(DAY + 12 * 3600 + 3 * 60, 250_000_000, 3_600).unwrap();
    let name = get_name(
        &reading,
        &camera("gate"),
        &meta("f", "[hour]:[minute]:[second].[subsecond digits:3] [offset_hour sign:mandatory]"),
    );
    assert_eq!(name, Some("f/13:03:00.250 +01_gate.mkv".to_string()));
    let reading = WallTime::new(DAY - 1, 0, 0).unwrap();
    let name = get_name(&reading, &camera("c"), &meta("f", "[year]-[month]-[day]"));
    assert_eq!(name, Some("f/2023-11-14_c.mkv".to_string()));
}

#[test]
fn get_name_is_the_same_for_the_same_reading() {
    let format = meta("f", "[year][month][day]T[hour][minute][second]");
    let first = get_name(&at(1, 2, 3), &camera("c"), &format);
    let second = get_name(&at(1, 2, 3), &camera("c"), &format);
    assert_eq!(first, Some("f/20231115T010203_c.mkv".to_string()));
    assert_eq!(first, second);
}

#[test]
fn get_name_fails_where_the_time_cannot_be_formatted() {
    assert_eq!(get_name(&at(12, 3, 0), &camera("gate"), &meta("f", "[nonsense]")), None);
    assert_eq!(get_name(&at(12, 3, 0), &camera("gate"), &meta("f", "[year")), None);
    let unformed = WallTime { seconds: i64::MAX, nanosecond: 0, offset: 0 };
    assert_eq!(get_name(&unformed, &camera("gate"), &meta("f", "[year]")), None);
    let unformed = WallTime { seconds: 0, nanosecond: 0, offset: 100_000 };
    assert_eq!(get_name(&unformed, &camera("gate"), &meta("f", "[year]")), None);
}

#[test]
fn get_name_takes_a_description_without_components() {
    assert_eq!(
        get_name(&at(12, 3, 0), &camera("gate"), &meta("f", "now")),
        Some("f/now_gate.mkv".to_string())
    );
}
