//! The decisions of the scheduling loop: when to look up the location and the sun
//! times again, what to report, and when to set the displays' brightness.
//!
//! The loop itself (lookups, sleeping, talking to the displays) is run by the
//! program; it hands each outcome to `Scheduler::step` and performs the action that
//! comes back.
use vstd::prelude::*;
use crate::config::SharedState;
use crate::daylight::{SunTimes, TimeOfDay, format_hh_mm, hh_mm};
use crate::text::string_from;

verus! {

/// What the loop knows between rounds.
#[derive(Clone, Copy, Debug)]
pub struct Scheduler {
    pub sun_times: Option<SunTimes>,
    pub has_location: bool,
}

/// What happened since the last step.
#[derive(Debug)]
pub enum LoopEvent {
    /// A new round starts.
    Tick,
    /// The location was found; `label` describes it.
    Located { label: String },
    /// The location could not be found.
    LocationUnavailable,
    /// The sun times at the location were computed; `None` when the sun does not rise.
    SunTimesComputed { sun_times: Option<SunTimes> },
}

/// What the loop does next.
#[derive(Clone, Copy, Debug, PartialEq, Eq, Structural)]
pub enum LoopAction {
    /// Refresh the list of displays and look up the location.
    DetectLocation,
    /// Compute the sun times at the location found.
    ComputeSunTimes,
    /// Set the brightness for the current time from these sun times (the solar
    /// elevation is computed only `with_location`), then wait for the next round.
    Apply { sun_times: SunTimes, with_location: bool },
    /// Wait for the next round.
    Wait,
}

/// The sun times used when the location cannot be found: 06:00, 12:00 and 18:00.
pub open spec fn default_sun_times() -> SunTimes {
    SunTimes {
        sunrise: TimeOfDay::at(21_600),
        transit: TimeOfDay::at(43_200),
        sunset: TimeOfDay::at(64_800),
    }
}

/// A round starts over from the location lookup when a fetch was requested, or no
/// sun times or no location are known.
pub open spec fn needs_lookup(s: Scheduler, refetch: bool) -> bool {
    refetch || s.sun_times is None || !s.has_location
}

/// The scheduler after `event`, when `refetch` is the request flag it found.
pub open spec fn next_scheduler(s: Scheduler, event: LoopEvent) -> Scheduler {
    match event {
        LoopEvent::Tick => s,
        LoopEvent::Located { .. } => Scheduler { has_location: true, ..s },
        LoopEvent::LocationUnavailable => Scheduler {
            sun_times: Some(default_sun_times()),
            has_location: false,
        },
        LoopEvent::SunTimesComputed { sun_times } => match sun_times {
            Some(st) => Scheduler { sun_times: Some(st), ..s },
            None => s,
        },
    }
}

/// The action after `event`, when `refetch` is the request flag found by a tick.
pub open spec fn next_action(s: Scheduler, refetch: bool, event: LoopEvent) -> LoopAction {
    match event {
        LoopEvent::Tick => if needs_lookup(s, refetch) {
            LoopAction::DetectLocation
        } else {
            LoopAction::Apply { sun_times: s.sun_times->0, with_location: s.has_location }
        },
        LoopEvent::Located { .. } => LoopAction::ComputeSunTimes,
        LoopEvent::LocationUnavailable => LoopAction::Apply {
            sun_times: default_sun_times(),
            with_location: false,
        },
        LoopEvent::SunTimesComputed { sun_times } => match sun_times {
            Some(st) => LoopAction::Apply { sun_times: st, with_location: s.has_location },
            None => LoopAction::Wait,
        },
    }
}

/// The texts of the shared state other than the status are unchanged.
pub open spec fn texts_unchanged(a: SharedState, b: SharedState) -> bool {
    &&& a.sunrise_str == b.sunrise_str
    &&& a.noon_str == b.noon_str
    &&& a.sunset_str == b.sunset_str
    &&& a.location_str == b.location_str
}

/// Only the status, the texts and the fetch request can change.
pub open spec fn rest_unchanged(a: SharedState, b: SharedState) -> bool {
    &&& a.config == b.config
    &&& a.current_brightness == b.current_brightness
    &&& a.latest_version == b.latest_version
    &&& a.detected_monitors == b.detected_monitors
}

impl Scheduler {
    /// Nothing known yet.
    pub fn new() -> (s: Self)
        ensures
            s.sun_times is None,
            !s.has_location,
    {
        Scheduler { sun_times: None, has_location: false }
    }

    /// Takes in what happened and decides what to do next, updating the status and
    /// texts of `shared`:
    /// - a tick consumes the fetch request; it starts a lookup (status
    ///   "Detecting location...") when one is needed, and otherwise applies the known
    ///   sun times;
    /// - a found location is recorded (its label shown, status "Computing sun
    ///   times..."), and the sun times are computed next;
    /// - a failed lookup falls back to 06:00/12:00/18:00 (texts "Unknown (using
    ///   defaults)", the three times, and a status saying so), applied without a
    ///   location;
    /// - computed sun times are shown as `HH:MM`, kept, and applied (status
    ///   "Running"); a day without sunrise is reported and the loop waits.
    pub fn step(&mut self, shared: &mut SharedState, event: LoopEvent) -> (action: LoopAction)
        requires
            old(self).sun_times matches Some(st) ==> st.is_valid(),
            event matches LoopEvent::SunTimesComputed { sun_times: Some(st) } ==> st.is_valid(),
        ensures
            action == next_action(*old(self), old(shared).needs_refetch, event),
            *final(self) == next_scheduler(*old(self), event),
            final(self).sun_times matches Some(st) ==> st.is_valid(),
            rest_unchanged(*final(shared), *old(shared)),
            match event {
                LoopEvent::Tick => {
                    &&& !final(shared).needs_refetch
                    &&& texts_unchanged(*final(shared), *old(shared))
                    &&& if needs_lookup(*old(self), old(shared).needs_refetch) {
                        final(shared).status@ == "Detecting location..."@
                    } else {
                        final(shared).status == old(shared).status
                    }
                },
                LoopEvent::Located { label } => {
                    &&& final(shared).needs_refetch == old(shared).needs_refetch
                    &&& final(shared).location_str@ == label@
                    &&& final(shared).sunrise_str == old(shared).sunrise_str
                    &&& final(shared).noon_str == old(shared).noon_str
                    &&& final(shared).sunset_str == old(shared).sunset_str
                    &&& final(shared).status@ == "Computing sun times..."@
                },
                LoopEvent::LocationUnavailable => {
                    &&& final(shared).needs_refetch == old(shared).needs_refetch
                    &&& final(shared).location_str@ == "Unknown (using defaults)"@
                    &&& final(shared).status@
                        == "Location detection failed, using 6:00-18:00 defaults"@
                    &&& final(shared).sunrise_str@ == "06:00"@
                    &&& final(shared).noon_str@ == "12:00"@
                    &&& final(shared).sunset_str@ == "18:00"@
                },
                LoopEvent::SunTimesComputed { sun_times } => {
                    &&& final(shared).needs_refetch == old(shared).needs_refetch
                    &&& final(shared).location_str == old(shared).location_str
                    &&& match sun_times {
                        Some(st) => {
                            &&& final(shared).sunrise_str@ == hh_mm(st.sunrise)
                            &&& final(shared).noon_str@ == hh_mm(st.transit)
                            &&& final(shared).sunset_str@ == hh_mm(st.sunset)
                            &&& final(shared).status@ == "Running"@
                        },
                        None => {
                            &&& texts_unchanged(*final(shared), *old(shared))
                            &&& final(shared).status@ == "Polar night \u{2014} no sunrise today"@
                        },
                    }
                },
            },
    {
        match event {
            LoopEvent::Tick => {
                let refetch = shared.needs_refetch;
                shared.needs_refetch = false;
                if refetch || self.sun_times.is_none() || !self.has_location {
                    shared.status = string_from("Detecting location...");
                    LoopAction::DetectLocation
                } else {
                    match self.sun_times {
                        Some(st) => LoopAction::Apply { sun_times: st, with_location: self.has_location },
                        None => LoopAction::Wait,
                    }
                }
            },
            LoopEvent::Located { label } => {
                shared.location_str = label;
                self.has_location = true;
                shared.status = string_from("Computing sun times...");
                LoopAction::ComputeSunTimes
            },
            LoopEvent::LocationUnavailable => {
                shared.location_str = string_from("Unknown (using defaults)");
                shared.status = string_from("Location detection failed, using 6:00-18:00 defaults");
                shared.sunrise_str = string_from("06:00");
                shared.noon_str = string_from("12:00");
                shared.sunset_str = string_from("18:00");
                let st = SunTimes {
                    sunrise: TimeOfDay { secs: 21_600, nanos: 0 },
                    transit: TimeOfDay { secs: 43_200, nanos: 0 },
                    sunset: TimeOfDay { secs: 64_800, nanos: 0 },
                };
                self.sun_times = Some(st);
                self.has_location = false;
                LoopAction::Apply { sun_times: st, with_location: false }
            },
            LoopEvent::SunTimesComputed { sun_times } => match sun_times {
                Some(st) => {
                    shared.sunrise_str = format_hh_mm(st.sunrise);
                    shared.noon_str = format_hh_mm(st.transit);
                    shared.sunset_str = format_hh_mm(st.sunset);
                    self.sun_times = Some(st);
                    shared.status = string_from("Running");
                    LoopAction::Apply { sun_times: st, with_location: self.has_location }
                },
                None => {
                    shared.status = string_from("Polar night \u{2014} no sunrise today");
                    LoopAction::Wait
                },
            },
        }
    }
}

/// Every round applies brightness from the sun times that the scheduler keeps.
pub proof fn lemma_applies_kept_sun_times(s: Scheduler, refetch: bool, event: LoopEvent)
    ensures
        next_action(s, refetch, event) matches LoopAction::Apply { sun_times, .. } ==> next_scheduler(
            s,
            event,
        ).sun_times == Some(sun_times),
{
}

/// After the location lookup failed, the next round looks it up again.
pub proof fn lemma_failed_lookup_is_retried(s: Scheduler, refetch: bool)
    ensures
        next_action(next_scheduler(s, LoopEvent::LocationUnavailable), refetch, LoopEvent::Tick)
            == LoopAction::DetectLocation,
{
}

/// A requested fetch always starts a lookup at the next round.
pub proof fn lemma_requested_fetch_starts_lookup(s: Scheduler)
    ensures
        next_action(s, true, LoopEvent::Tick) == LoopAction::DetectLocation,
{
}

} // verus!
