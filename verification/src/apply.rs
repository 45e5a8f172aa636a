//! Setting the displays: which curve decides each display, and the steps of a fade.
use vstd::prelude::*;
use crate::curve::BrightnessCurve;
use crate::monitor::{Evaluation, MonitorOverride};
use crate::text::str_eq;

verus! {

/// The `i`-th value of a fade from `from` to `to`, one percentage point at a time.
pub open spec fn fade_value(from: u32, to: u32, i: int) -> int {
    if from < to {
        from + i + 1
    } else {
        from - i - 1
    }
}

/// The brightness values a fade from `from` to `to` sets, in order: one step of one
/// percentage point at a time, ending at `to`; nothing when they are equal.
pub fn fade_brightness(from: u32, to: u32) -> (steps: Vec<u32>)
    requires
        from <= i32::MAX,
        to <= i32::MAX,
    ensures
        steps@.len() == (if from < to {
            to - from
        } else {
            from - to
        }),
        forall|i: int| 0 <= i < steps@.len() ==> steps@[i] == fade_value(from, to, i),
        steps@.len() > 0 ==> steps@.last() == to,
        steps@.len() > 0 ==> steps@[0] == (if from < to {
            from + 1
        } else {
            from - 1
        }),
        forall|i: int|
            0 <= i < steps@.len() - 1 ==> #[trigger] steps@[i + 1] == (if from < to {
                steps@[i] + 1
            } else {
                steps@[i] - 1
            }),
{
    let mut steps: Vec<u32> = Vec::new();
    let mut value = from;
    while value != to
        invariant
            from <= i32::MAX,
            to <= i32::MAX,
            from <= to ==> from <= value <= to,
            to <= from ==> to <= value <= from,
            steps@.len() == (if from < to {
                value - from
            } else {
                from - value
            }),
            forall|i: int| 0 <= i < steps@.len() ==> steps@[i] == fade_value(from, to, i),
        decreases if from < to {
            to - value
        } else {
            value - to
        },
    {
        if to > from {
            value = value + 1;
        } else {
            value = value - 1;
        }
        steps.push(value);
    }
    steps
}

/// A fade moves one percentage point at a time toward its target: its values start
/// one point from `from`, each differs from the one before by one point in the
/// direction of `to`, all lie strictly past `from` and at most at `to`, and the last
/// is `to`.
pub proof fn lemma_fade_steps_one_point(from: u32, to: u32, steps: Seq<u32>)
    requires
        steps.len() == (if from < to {
            to - from
        } else {
            from - to
        }),
        forall|i: int| 0 <= i < steps.len() ==> steps[i] == fade_value(from, to, i),
    ensures
        steps.len() > 0 ==> steps[0] == (if from < to {
            from + 1
        } else {
            from - 1
        }),
        forall|i: int|
            0 <= i < steps.len() - 1 ==> #[trigger] steps[i + 1] - steps[i] == (if from < to {
                1int
            } else {
                -1int
            }),
        forall|i: int|
            0 <= i < steps.len() ==> (if from < to {
                from < #[trigger] steps[i] <= to
            } else {
                to <= steps[i] < from
            }),
        steps.len() > 0 ==> steps.last() == to,
{
    assert forall|i: int| 0 <= i < steps.len() - 1 implies #[trigger] steps[i + 1] - steps[i] == (
    if from < to {
        1int
    } else {
        -1int
    }) by {
        assert(steps[i] == fade_value(from, to, i));
        assert(steps[i + 1] == fade_value(from, to, i + 1));
    }
    if steps.len() > 0 {
        assert(steps[steps.len() - 1] == fade_value(from, to, steps.len() - 1));
    }
}

/// Index of the first display settings named `name`.
pub open spec fn is_first_named(monitors: Seq<MonitorOverride>, name: Seq<char>, i: int) -> bool {
    &&& 0 <= i < monitors.len()
    &&& monitors[i].name@ == name
    &&& forall|j: int| 0 <= j < i ==> (#[trigger] monitors[j]).name@ != name
}

/// The position of the first settings for the display called `name`, if any.
pub fn find_override(monitors: &Vec<MonitorOverride>, name: &str) -> (r: Option<usize>)
    ensures
        r matches Some(i) ==> is_first_named(monitors@, name@, i as int),
        r is None ==> forall|j: int| 0 <= j < monitors@.len() ==> (#[trigger] monitors@[j]).name@ != name@,
{
    let mut i: usize = 0;
    while i < monitors.len()
        invariant
            i <= monitors@.len(),
            forall|j: int| 0 <= j < i ==> (#[trigger] monitors@[j]).name@ != name@,
        decreases monitors@.len() - i,
    {
        if str_eq(monitors[i].name.as_str(), name) {
            return Some(i);
        }
        i = i + 1;
    }
    None
}

/// What decides the brightness of the display called `device_name`: its own
/// settings when it has any, and otherwise the shared curve.
pub fn device_target<'a>(
    monitors: &'a Vec<MonitorOverride>,
    device_name: &str,
    global_curve: &'a BrightnessCurve,
) -> (r: Option<Evaluation<'a>>)
    ensures
        forall|i: int| #[trigger] is_first_named(monitors@, device_name@, i) ==> r == monitors@[i].evaluation_spec(global_curve),
        (forall|j: int| 0 <= j < monitors@.len() ==> (#[trigger] monitors@[j]).name@ != device_name@) ==> (
        r matches Some(e) && *e.curve == *global_curve && e.offset is None),
{
    match find_override(monitors, device_name) {
        Some(i) => monitors[i].evaluate(global_curve),
        None => Some(Evaluation { curve: global_curve, offset: None }),
    }
}

/// How the displays are set in one round.
#[derive(Clone, Copy, Debug, PartialEq, Eq, Structural)]
pub enum BrightnessUpdate {
    /// No display has settings of its own: fade all displays from `from` to `to`.
    Fade { from: u32, to: u32 },
    /// No display has settings of its own and all are at the target already.
    Unchanged,
    /// Set each display to what its settings (or the shared curve) decide.
    PerDisplay,
}

/// How the displays are set in one round, given the display settings, the
/// brightness last set and the shared curve's target; the second value is the
/// brightness to record as set afterwards.
pub fn brightness_update(monitors: &Vec<MonitorOverride>, current: u32, global_target: u32) -> (r: (
    BrightnessUpdate,
    u32,
))
    ensures
        monitors@.len() == 0 && current != global_target ==> r == (
        BrightnessUpdate::Fade { from: current, to: global_target },
        global_target,
        ),
        monitors@.len() == 0 && current == global_target ==> r == (BrightnessUpdate::Unchanged, current),
        monitors@.len() > 0 ==> r == (BrightnessUpdate::PerDisplay, global_target),
{
    if monitors.len() == 0 {
        if current != global_target {
            (BrightnessUpdate::Fade { from: current, to: global_target }, global_target)
        } else {
            (BrightnessUpdate::Unchanged, current)
        }
    } else {
        (BrightnessUpdate::PerDisplay, global_target)
    }
}

} // verus!
