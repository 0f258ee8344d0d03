use ntp_clock::clock::LocalClock;
use ntp_clock::face::{clock_face, glyph_byte, plan_redraw, CellUpdate};
use ntp_clock::ntp_stamp::Timestamp;

#[test]
fn timestamp_splits_reading_into_seconds_and_micros() {
    let t = Timestamp::new(1_234_567_890_123_456);
    assert_eq!(t.timestamp_sec(), 1_234_567_890);
    assert_eq!(t.timestamp_subsec_micros(), 123_456);
    assert_eq!(
        t.timestamp_sec() * 1_000_000 + t.timestamp_subsec_micros() as u64,
        t.current_time_us
    );
}

#[test]
fn timestamp_init_records_new_reading() {
    let mut t = Timestamp::new(0);
    assert_eq!(t.timestamp_sec(), 0);
    assert_eq!(t.timestamp_subsec_micros(), 0);
    t.init(5_999_999);
    assert_eq!(t.current_time_us, 5_999_999);
    assert_eq!(t.timestamp_sec(), 5);
    assert_eq!(t.timestamp_subsec_micros(), 999_999);
}

#[test]
fn clock_from_ntp_runs_five_hours_behind_utc() {
    // 2023-11-14T22:13:20Z
    let clock = LocalClock::from_ntp(1_700_000_000);
    assert_eq!(clock.time_of_day(), (17, 13, 20));
    assert_eq!(clock.date(), (2023, 11, 14));
    assert_eq!(clock.face(), ['1', '7', ':', '1', '3', ':', '2', '0']);
}

#[test]
fn clock_from_epoch_shows_previous_evening() {
    let clock = LocalClock::from_ntp(0);
    assert_eq!(clock.time_of_day(), (19, 0, 0));
    assert_eq!(clock.date(), (1969, 12, 31));
}

#[test]
fn clock_tick_advances_one_second() {
    let mut clock = LocalClock::from_ntp(1_700_000_000);
    clock.tick();
    assert_eq!(clock.time_of_day(), (17, 13, 21));
    assert_eq!(clock.face(), ['1', '7', ':', '1', '3', ':', '2', '1']);
}

#[test]
fn clock_tick_carries_over_midnight() {
    // 23:59:59 on 1970-01-01 in the displayed zone.
    let mut clock = LocalClock::from_ntp(5 * 3600 + 86_399);
    assert_eq!(clock.time_of_day(), (23, 59, 59));
    assert_eq!(clock.date(), (1970, 1, 1));
    clock.tick();
    assert_eq!(clock.time_of_day(), (0, 0, 0));
    assert_eq!(clock.date(), (1970, 1, 2));
    assert_eq!(clock.face(), ['0', '0', ':', '0', '0', ':', '0', '0']);
}

#[test]
fn clock_tick_carries_minute_and_hour() {
    let mut clock = LocalClock::from_ntp(5 * 3600 + 3600 * 9 + 59 * 60 + 59);
    assert_eq!(clock.time_of_day(), (9, 59, 59));
    clock.tick();
    assert_eq!(clock.time_of_day(), (10, 0, 0));
}

#[test]
fn face_writes_two_digits_per_field() {
    assert_eq!(clock_face(7, 5, 9), ['0', '7', ':', '0', '5', ':', '0', '9']);
    assert_eq!(clock_face(23, 59, 58), ['2', '3', ':', '5', '9', ':', '5', '8']);
    assert_eq!(clock_face(99, 0, 10), ['9', '9', ':', '0', '0', ':', '1', '0']);
}

#[test]
fn glyph_byte_is_the_ascii_code() {
    assert_eq!(glyph_byte('7'), b'7');
    assert_eq!(glyph_byte(':'), b':');
    assert_eq!(glyph_byte('0'), 48);
}

#[test]
fn redraw_from_blank_repaints_every_cell() {
    let mut shown = [' '; 8];
    let wanted = clock_face(12, 34, 56);
    let updates = plan_redraw(&mut shown, &wanted);
    assert_eq!(shown, wanted);
    assert_eq!(updates.len(), 8);
    for (i, u) in updates.iter().enumerate() {
        assert_eq!(u.index, i);
        assert_eq!(u.x, 60 + 12 * i as i32);
        assert_eq!(u.glyph, wanted[i]);
    }
}

#[test]
fn redraw_repaints_only_changed_cells() {
    let mut shown = clock_face(12, 34, 56);
    let wanted = clock_face(12, 35, 0);
    let updates = plan_redraw(&mut shown, &wanted);
    assert_eq!(shown, wanted);
    assert_eq!(
        updates,
        vec![
            CellUpdate { index: 4, x: 108, glyph: '5' },
            CellUpdate { index: 6, x: 132, glyph: '0' },
            CellUpdate { index: 7, x: 144, glyph: '0' },
        ]
    );
}

#[test]
fn redraw_twice_repaints_nothing_the_second_time() {
    let mut shown = [' '; 8];
    let wanted = clock_face(1, 2, 3);
    let first = plan_redraw(&mut shown, &wanted);
    assert_eq!(first.len(), 8);
    let second = plan_redraw(&mut shown, &wanted);
    assert!(second.is_empty());
    assert_eq!(shown, wanted);
}

#[test]
fn clock_accepts_only_answers_jiff_can_hold() {
    assert!(LocalClock::accepts_ntp(0));
    assert!(LocalClock::accepts_ntp(1_700_000_000));
    assert!(LocalClock::accepts_ntp(253_402_207_200));
    assert!(!LocalClock::accepts_ntp(253_402_207_201));
    // Read as a signed count, the largest answer is one second before the epoch.
    assert!(LocalClock::accepts_ntp(u64::MAX));
    let clock = LocalClock::from_ntp(u64::MAX);
    assert_eq!(clock.time_of_day(), (18, 59, 59));
    assert_eq!(clock.date(), (1969, 12, 31));
}

#[test]
fn face_digits_read_back_the_time() {
    let face = clock_face(8, 47, 3);
    let read = |a: char, b: char| (a as u32 - 48) * 10 + (b as u32 - 48);
    assert_eq!(read(face[0], face[1]), 8);
    assert_eq!(read(face[3], face[4]), 47);
    assert_eq!(read(face[6], face[7]), 3);
    assert_eq!((face[2], face[5]), (':', ':'));
}
