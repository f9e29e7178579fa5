use kanils::timer::Timer;

#[test]
fn seconds_alone_up_to_a_minute() {
    assert_eq!(Timer::secs_to_readable(0), "0s");
    assert_eq!(Timer::secs_to_readable(7), "7s");
    assert_eq!(Timer::secs_to_readable(59), "59s");
    assert_eq!(Timer::secs_to_readable(60), "60s");
}

#[test]
fn minutes_after_more_than_a_minute() {
    assert_eq!(Timer::secs_to_readable(61), "1m 1s");
    assert_eq!(Timer::secs_to_readable(120), "2m 0s");
    assert_eq!(Timer::secs_to_readable(3599), "59m 59s");
    assert_eq!(Timer::secs_to_readable(3600), "60m 0s");
}

#[test]
fn hours_after_more_than_an_hour() {
    assert_eq!(Timer::secs_to_readable(3601), "1h 1s");
    assert_eq!(Timer::secs_to_readable(3660), "1h 60s");
    assert_eq!(Timer::secs_to_readable(3661), "1h 1m 1s");
    assert_eq!(Timer::secs_to_readable(7325), "2h 2m 5s");
    assert_eq!(Timer::secs_to_readable(360_000), "100h 0s");
    assert_eq!(Timer::secs_to_readable(u64::MAX), "5124095576030431h 15s");
}

#[test]
fn a_timer_words_its_two_lines() {
    let timer = Timer::new("Putting Data");
    assert_eq!(timer.start_message(), "[Putting Data] start");
    assert_eq!(timer.finish_message(0, 0), "[Putting Data] finish @ 0s 0ms");
    assert_eq!(timer.finish_message(3725, 42), "[Putting Data] finish @ 1h 2m 5s 42ms");
    assert_eq!(timer.finish_message(61, 999), "[Putting Data] finish @ 1m 1s 999ms");
    assert_eq!(Timer::new("").start_message(), "[] start");
}
