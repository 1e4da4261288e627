use tuxctl::linux::localtime::{BrokenDownTime, LocalTime};

fn at(hour: u8, minute: u8, second: u8, utc_offset_seconds: i32) -> LocalTime {
    LocalTime {
        year: 2026,
        month: 9,
        day: 22,
        hour,
        minute,
        second,
        utc_offset_seconds,
    }
}

#[test]
fn formats_clock_and_full_time_with_offsets() {
    assert_eq!(at(21, 4, 5, 3 * 3600).clock(), "21:04:05");
    assert_eq!(at(21, 4, 5, 3 * 3600).full(), "2026-09-22 21:04:05 +0300");
    assert_eq!(at(0, 0, 0, 0).full(), "2026-09-22 00:00:00 +0000");
    assert_eq!(
        at(9, 30, 0, -(3 * 3600 + 1800)).full(),
        "2026-09-22 09:30:00 -0330"
    );
    assert_eq!(
        at(23, 59, 59, 5 * 3600 + 2700).full(),
        "2026-09-22 23:59:59 +0545"
    );
}

#[test]
fn years_are_padded_with_their_sign_counted() {
    for year in [-12_345, -5, 0, 7, 833, 10_000] {
        let time = LocalTime {
            year,
            ..at(1, 2, 3, 0)
        };
        assert_eq!(time.full(), format!("{year:04}-09-22 01:02:03 +0000"));
    }
}

#[test]
fn the_farthest_offset_is_written_out() {
    let time = at(1, 2, 3, i32::MIN);
    let minutes = i32::MIN.unsigned_abs() / 60;
    assert_eq!(
        time.full(),
        format!(
            "2026-09-22 01:02:03 -{:02}{:02}",
            minutes / 60,
            minutes % 60
        )
    );
}

const BROKEN_DOWN: BrokenDownTime = BrokenDownTime {
    years_since_1900: 126,
    month: 8,
    day: 22,
    hour: 21,
    minute: 4,
    second: 5,
    utc_offset_seconds: 10_800,
};

#[test]
fn a_broken_down_time_is_taken_over() {
    assert_eq!(
        LocalTime::from_broken_down(BROKEN_DOWN),
        Some(at(21, 4, 5, 3 * 3600))
    );
}

#[test]
fn parts_that_cannot_be_held_are_refused() {
    let refused = [
        BrokenDownTime {
            years_since_1900: i32::MAX - 1899,
            ..BROKEN_DOWN
        },
        BrokenDownTime {
            month: 255,
            ..BROKEN_DOWN
        },
        BrokenDownTime {
            month: i32::MAX,
            ..BROKEN_DOWN
        },
        BrokenDownTime {
            day: -1,
            ..BROKEN_DOWN
        },
        BrokenDownTime {
            hour: 256,
            ..BROKEN_DOWN
        },
        BrokenDownTime {
            minute: -3,
            ..BROKEN_DOWN
        },
        BrokenDownTime {
            second: 1_000,
            ..BROKEN_DOWN
        },
        BrokenDownTime {
            utc_offset_seconds: 1 << 31,
            ..BROKEN_DOWN
        },
    ];
    for time in refused {
        assert_eq!(LocalTime::from_broken_down(time), None, "{time:?}");
    }
}
