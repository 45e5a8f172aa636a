use sunrise_brightness::apply::{
    BrightnessUpdate, brightness_update, device_target, fade_brightness, find_override,
};
use sunrise_brightness::config::{Config, SharedState};
use sunrise_brightness::curve::BrightnessCurve;
use sunrise_brightness::daylight::{
    DayProgress, SolarDay, SunTimes, TimeOfDay, day_progress, format_hh_mm, progress_within_day,
    sun_times_for_day,
};
use sunrise_brightness::monitor::MonitorOverride;
use sunrise_brightness::schedule::{LoopAction, LoopEvent, Scheduler};

fn t(h: u32, m: u32, s: u32) -> TimeOfDay {
    TimeOfDay { secs: h * 3600 + m * 60 + s, nanos: 0 }
}

#[test]
fn config_defaults() {
    let c = Config::default();
    assert_eq!(c.api_key, "");
    assert_eq!((c.min_brightness, c.max_brightness), (0, 100));
    assert_eq!(c.update_interval_secs, 180);
    assert!(c.start_on_startup);
    assert_eq!(c.global_curve.preset.as_deref(), Some("natural"));
    assert!(c.monitors.is_empty());
}

#[test]
fn shared_state_starts_and_reports() {
    let mut s = SharedState::new(Config::default());
    assert!(s.needs_refetch);
    assert_eq!(s.status, "Starting...");
    assert_eq!(s.current_brightness, 50);
    assert!(s.sunrise_str.is_empty() && s.noon_str.is_empty());
    s.set_status("Running");
    assert_eq!(s.status, "Running");
    assert!(s.needs_refetch);
}

#[test]
fn day_progress_fractions() {
    let sunrise = t(6, 0, 0);
    let sunset = t(18, 0, 0);
    assert_eq!(day_progress(t(5, 0, 0), sunrise, sunset), DayProgress { elapsed: 0, length: 1 });
    assert_eq!(day_progress(sunrise, sunrise, sunset), DayProgress { elapsed: 0, length: 1 });
    assert_eq!(day_progress(t(12, 0, 0), sunrise, sunset), DayProgress { elapsed: 21600, length: 43200 });
    assert_eq!(day_progress(sunset, sunrise, sunset), DayProgress { elapsed: 1, length: 1 });
    assert_eq!(day_progress(t(23, 0, 0), sunrise, sunset), DayProgress { elapsed: 1, length: 1 });
    let now = TimeOfDay { secs: 6 * 3600 + 10, nanos: 999_999_999 };
    assert_eq!(day_progress(now, sunrise, sunset), DayProgress { elapsed: 10, length: 43200 });
    let late_rise = TimeOfDay { secs: 6 * 3600, nanos: 500_000_000 };
    let early_set = TimeOfDay { secs: 6 * 3600 + 1, nanos: 0 };
    let mid = TimeOfDay { secs: 6 * 3600, nanos: 700_000_000 };
    assert_eq!(day_progress(mid, late_rise, early_set), DayProgress { elapsed: 0, length: 1 });
}

#[test]
fn sun_times_for_each_kind_of_day() {
    let st = sun_times_for_day(SolarDay::RegularDay { sunrise: t(7, 1, 2), transit: t(12, 30, 0), sunset: t(19, 2, 3) });
    assert_eq!(st, Some(SunTimes { sunrise: t(7, 1, 2), transit: t(12, 30, 0), sunset: t(19, 2, 3) }));
    let st = sun_times_for_day(SolarDay::AllDay { transit: t(12, 0, 0) });
    assert_eq!(st, Some(SunTimes { sunrise: t(0, 0, 0), transit: t(12, 0, 0), sunset: t(23, 59, 59) }));
    assert_eq!(sun_times_for_day(SolarDay::AllNight), None);
}

#[test]
fn hh_mm_format() {
    assert_eq!(format_hh_mm(t(6, 5, 59)), "06:05");
    assert_eq!(format_hh_mm(t(23, 59, 59)), "23:59");
    assert_eq!(format_hh_mm(TimeOfDay { secs: 86_399, nanos: 1_500_000_000 }), "23:59");
}

#[test]
fn fade_steps_one_point_at_a_time() {
    assert_eq!(fade_brightness(50, 53), vec![51, 52, 53]);
    assert_eq!(fade_brightness(53, 50), vec![52, 51, 50]);
    assert!(fade_brightness(7, 7).is_empty());
    assert_eq!(fade_brightness(0, 100).len(), 100);
}

#[test]
fn device_targets() {
    let global = BrightnessCurve::linear();
    let mut a = MonitorOverride::new_global("A".to_string());
    a.mode = "ignored".to_string();
    let mut b = MonitorOverride::new_global("B".to_string());
    b.mode = "offset".to_string();
    b.offset = 10;
    let b2 = MonitorOverride::new_global("B".to_string());
    let ms = vec![a, b, b2];
    assert_eq!(find_override(&ms, "B"), Some(1));
    assert_eq!(find_override(&ms, "C"), None);
    assert!(device_target(&ms, "A", &global).is_none());
    assert_eq!(device_target(&ms, "B", &global).unwrap().offset, Some(10));
    let e = device_target(&ms, "C", &global).unwrap();
    assert!(std::ptr::eq(e.curve, &global) && e.offset.is_none());
}

#[test]
fn scheduler_first_round_with_location() {
    let mut sched = Scheduler::new();
    let mut shared = SharedState::new(Config::default());
    assert_eq!(sched.step(&mut shared, LoopEvent::Tick), LoopAction::DetectLocation);
    assert!(!shared.needs_refetch);
    assert_eq!(shared.status, "Detecting location...");
    let a = sched.step(&mut shared, LoopEvent::Located { label: "Lyon, FR".to_string() });
    assert_eq!(a, LoopAction::ComputeSunTimes);
    assert_eq!(shared.location_str, "Lyon, FR");
    assert_eq!(shared.status, "Computing sun times...");
    let st = SunTimes { sunrise: t(7, 5, 0), transit: t(13, 30, 0), sunset: t(19, 55, 0) };
    let a = sched.step(&mut shared, LoopEvent::SunTimesComputed { sun_times: Some(st) });
    assert_eq!(a, LoopAction::Apply { sun_times: st, with_location: true });
    assert_eq!((shared.sunrise_str.as_str(), shared.noon_str.as_str(), shared.sunset_str.as_str()), ("07:05", "13:30", "19:55"));
    assert_eq!(shared.status, "Running");
    assert_eq!(sched.step(&mut shared, LoopEvent::Tick), LoopAction::Apply { sun_times: st, with_location: true });
    assert_eq!(shared.status, "Running");
    shared.needs_refetch = true;
    assert_eq!(sched.step(&mut shared, LoopEvent::Tick), LoopAction::DetectLocation);
}

#[test]
fn scheduler_without_location_uses_defaults_and_retries() {
    let mut sched = Scheduler::new();
    let mut shared = SharedState::new(Config::default());
    sched.step(&mut shared, LoopEvent::Tick);
    let a = sched.step(&mut shared, LoopEvent::LocationUnavailable);
    let defaults = SunTimes { sunrise: t(6, 0, 0), transit: t(12, 0, 0), sunset: t(18, 0, 0) };
    assert_eq!(a, LoopAction::Apply { sun_times: defaults, with_location: false });
    assert_eq!(shared.location_str, "Unknown (using defaults)");
    assert_eq!(shared.status, "Location detection failed, using 6:00-18:00 defaults");
    assert_eq!((shared.sunrise_str.as_str(), shared.noon_str.as_str(), shared.sunset_str.as_str()), ("06:00", "12:00", "18:00"));
    assert_eq!(sched.step(&mut shared, LoopEvent::Tick), LoopAction::DetectLocation);
}

#[test]
fn scheduler_polar_night_waits() {
    let mut sched = Scheduler::new();
    let mut shared = SharedState::new(Config::default());
    sched.step(&mut shared, LoopEvent::Tick);
    sched.step(&mut shared, LoopEvent::Located { label: "Svalbard".to_string() });
    let a = sched.step(&mut shared, LoopEvent::SunTimesComputed { sun_times: None });
    assert_eq!(a, LoopAction::Wait);
    assert_eq!(shared.status, "Polar night \u{2014} no sunrise today");
    assert_eq!(sched.step(&mut shared, LoopEvent::Tick), LoopAction::DetectLocation);
}

#[test]
fn progress_within_day_clamps() {
    assert_eq!(progress_within_day(10, 100), DayProgress { elapsed: 10, length: 100 });
    assert_eq!(progress_within_day(-5, 100), DayProgress { elapsed: 0, length: 100 });
    assert_eq!(progress_within_day(150, 100), DayProgress { elapsed: 100, length: 100 });
    assert_eq!(progress_within_day(5, 0), DayProgress { elapsed: 0, length: 1 });
    assert_eq!(progress_within_day(5, -3), DayProgress { elapsed: 0, length: 1 });
}

#[test]
fn day_progress_counts_leap_seconds_as_chrono_does() {
    let sunrise = TimeOfDay { secs: 6 * 3600 + 59, nanos: 1_500_000_000 };
    let sunset = t(18, 0, 0);
    let now = t(6, 1, 0);
    // chrono counts the rest of the leap second: 06:01:00 - 06:00:60.5 is 0.5 s.
    assert_eq!(day_progress(now, sunrise, sunset).elapsed, 0);
    let later = t(6, 1, 1);
    assert_eq!(day_progress(later, sunrise, sunset).elapsed, 1);
    assert_eq!(day_progress(later, sunrise, sunset).length, 43140);
}

#[test]
fn day_progress_never_goes_back() {
    let sunrise = t(5, 30, 0);
    let sunset = t(20, 15, 30);
    let mut last = DayProgress { elapsed: 0, length: 1 };
    for s in (0..86_400u32).step_by(97) {
        let p = day_progress(TimeOfDay { secs: s, nanos: 250_000_000 }, sunrise, sunset);
        assert!((last.elapsed as i128) * (p.length as i128) <= (p.elapsed as i128) * (last.length as i128));
        last = p;
    }
}

#[test]
fn brightness_update_per_round() {
    let none: Vec<MonitorOverride> = Vec::new();
    assert_eq!(brightness_update(&none, 40, 70), (BrightnessUpdate::Fade { from: 40, to: 70 }, 70));
    assert_eq!(brightness_update(&none, 70, 70), (BrightnessUpdate::Unchanged, 70));
    let some = vec![MonitorOverride::new_global("A".to_string())];
    assert_eq!(brightness_update(&some, 70, 70), (BrightnessUpdate::PerDisplay, 70));
    assert_eq!(brightness_update(&some, 10, 70), (BrightnessUpdate::PerDisplay, 70));
}
