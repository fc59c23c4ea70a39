use kintaro::clock::{PrintClock, RenderClock};

#[test]
fn print_clock_advances_twenty_milliseconds_a_frame() {
    let mut c = PrintClock::init();
    assert!(c.reports_reading());
    c.update();
    c.update();
    let r = c.current();
    assert_eq!(r.frame_count, 2);
    assert_eq!(r.total_elapsed, 40_000_000);
    assert_eq!(r.last_period, 20_000_000);
    assert!(!c.reports_reading());
    for _ in 0..98 {
        c.update();
    }
    assert!(c.reports_reading());
    assert_eq!(c.current().total_elapsed, 2_000_000_000);
}

#[test]
fn print_clock_play_and_pause() {
    let mut c = PrintClock::init();
    assert!(!c.is_playing());
    c.play();
    assert!(c.is_playing());
    c.pause();
    assert!(!c.is_playing());
    c.set_playing(true);
    assert!(c.is_playing());
}

#[test]
fn render_clock_counts_time_only_while_playing() {
    let mut c = RenderClock::init();
    c.update_at(1_000);
    assert_eq!(c.current().total_elapsed, 0);
    assert_eq!(c.current().last_period, 1_000);
    c.play_at(5_000);
    c.update_at(7_500);
    assert_eq!(c.current().total_elapsed, 2_500);
    assert_eq!(c.current().last_period, 2_500);
    assert_eq!(c.current().frame_count, 2);
    c.pause();
    c.update_at(9_000);
    assert_eq!(c.current().total_elapsed, 2_500);
    assert_eq!(c.current().last_period, 1_500);
}

#[test]
fn render_clock_period_is_zero_when_time_goes_back() {
    let mut c = RenderClock::init();
    c.play_at(10);
    c.update_at(5);
    assert_eq!(c.current().last_period, 0);
    assert_eq!(c.current().total_elapsed, 0);
}

#[test]
fn render_clock_reads_the_wall_clock() {
    let mut c = RenderClock::init();
    c.play();
    c.update();
    c.set_playing(false);
    assert!(!c.is_playing());
    assert_eq!(c.current().frame_count, 1);
}
