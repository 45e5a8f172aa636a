//! Settings and the state that the scheduling loop and the settings window share.
use vstd::prelude::*;
use crate::curve::{BrightnessCurve, is_preset, natural_points, same_curve};
use crate::monitor::{MonitorOverride, same_override};
use crate::text::string_from;

verus! {

/// The settings that are saved to disk.
#[derive(Debug)]
pub struct Config {
    pub api_key: String,
    pub min_brightness: u32,
    pub max_brightness: u32,
    pub update_interval_secs: u64,
    pub start_on_startup: bool,
    pub global_curve: BrightnessCurve,
    pub monitors: Vec<MonitorOverride>,
}

/// Two lists of display settings agree entry by entry.
pub open spec fn same_overrides(a: Seq<MonitorOverride>, b: Seq<MonitorOverride>) -> bool {
    a.len() == b.len() && forall|i: int| 0 <= i < a.len() ==> same_override(#[trigger] a[i], b[i])
}

/// Two configurations agree in every field.
pub open spec fn same_config(a: Config, b: Config) -> bool {
    &&& a.api_key == b.api_key
    &&& a.min_brightness == b.min_brightness
    &&& a.max_brightness == b.max_brightness
    &&& a.update_interval_secs == b.update_interval_secs
    &&& a.start_on_startup == b.start_on_startup
    &&& same_curve(a.global_curve, b.global_curve)
    &&& same_overrides(a.monitors@, b.monitors@)
}

/// A copy of a list of display settings.
pub fn clone_overrides(v: &Vec<MonitorOverride>) -> (r: Vec<MonitorOverride>)
    ensures
        same_overrides(r@, v@),
{
    let mut r: Vec<MonitorOverride> = Vec::new();
    let mut i: usize = 0;
    while i < v.len()
        invariant
            i <= v@.len(),
            r@.len() == i,
            forall|j: int| 0 <= j < i ==> same_override(#[trigger] r@[j], v@[j]),
        decreases v@.len() - i,
    {
        r.push(v[i].clone());
        i = i + 1;
    }
    r
}

impl Clone for Config {
    fn clone(&self) -> (r: Self)
        ensures
            same_config(r, *self),
    {
        Config {
            api_key: self.api_key.clone(),
            min_brightness: self.min_brightness,
            max_brightness: self.max_brightness,
            update_interval_secs: self.update_interval_secs,
            start_on_startup: self.start_on_startup,
            global_curve: self.global_curve.clone(),
            monitors: clone_overrides(&self.monitors),
        }
    }
}

impl Default for Config {
    /// No API key, brightness bounds 0 and 100, an update every 180 seconds, start on
    /// boot, the "natural" curve for all displays and no per-display settings.
    fn default() -> (c: Self)
        ensures
            c.api_key@ == Seq::<char>::empty(),
            c.min_brightness == 0,
            c.max_brightness == 100,
            c.update_interval_secs == 180,
            c.start_on_startup,
            is_preset(c.global_curve, natural_points(), "natural"@),
            c.monitors@.len() == 0,
    {
        Config {
            api_key: String::new(),
            min_brightness: 0,
            max_brightness: 100,
            update_interval_secs: 180,
            start_on_startup: true,
            global_curve: BrightnessCurve::natural(),
            monitors: Vec::new(),
        }
    }
}

/// What the scheduling loop and the settings window share: the settings in force,
/// a request to fetch location and sun times again, and the texts shown as status.
#[derive(Debug)]
pub struct SharedState {
    pub config: Config,
    pub needs_refetch: bool,
    pub status: String,
    pub current_brightness: u32,
    pub sunrise_str: String,
    pub noon_str: String,
    pub sunset_str: String,
    pub location_str: String,
    pub latest_version: Option<String>,
    pub detected_monitors: Vec<String>,
}

impl SharedState {
    /// The state at start-up: the given settings, a fetch requested, status
    /// "Starting...", brightness assumed at 50, no texts yet.
    pub fn new(config: Config) -> (s: Self)
        ensures
            s.config == config,
            s.needs_refetch,
            s.status@ == "Starting..."@,
            s.current_brightness == 50,
            s.sunrise_str@ == Seq::<char>::empty(),
            s.noon_str@ == Seq::<char>::empty(),
            s.sunset_str@ == Seq::<char>::empty(),
            s.location_str@ == Seq::<char>::empty(),
            s.latest_version is None,
            s.detected_monitors@.len() == 0,
    {
        SharedState {
            config,
            needs_refetch: true,
            status: string_from("Starting..."),
            current_brightness: 50,
            sunrise_str: String::new(),
            noon_str: String::new(),
            sunset_str: String::new(),
            location_str: String::new(),
            latest_version: None,
            detected_monitors: Vec::new(),
        }
    }

    /// Replaces the status text; nothing else changes.
    pub fn set_status(&mut self, s: &str)
        ensures
            final(self).status@ == s@,
            final(self).config == old(self).config,
            final(self).needs_refetch == old(self).needs_refetch,
            final(self).current_brightness == old(self).current_brightness,
            final(self).sunrise_str == old(self).sunrise_str,
            final(self).noon_str == old(self).noon_str,
            final(self).sunset_str == old(self).sunset_str,
            final(self).location_str == old(self).location_str,
            final(self).latest_version == old(self).latest_version,
            final(self).detected_monitors == old(self).detected_monitors,
    {
        self.status = string_from(s);
    }
}

} // verus!
