//! The state of the settings window and the edits it makes: which curve a tab
//! shows and edits, the per-display settings, and the settings it saves.
use vstd::prelude::*;
use crate::apply::find_override;
use crate::config::{Config, clone_overrides, same_overrides};
use crate::curve::{
    BrightnessCurve, ControlPoint, F64_0, F64_0_01, F64_0_99, F64_1, clamp_bits,
    clamp_position, is_nan_bits, is_preset, key_of, lemma_sort_keeps_pinned_ends, natural_points,
    pinned_ends, position_key, preset_label, preset_points, pt, same_curve, stable_sort_of,
};
use crate::monitor::{MonitorOverride, clean_display_name, clean_name, label_of};
use crate::text::str_eq;

verus! {

/// Settings for a display that was just seen: follow the shared curve.
pub open spec fn is_fresh_global(m: MonitorOverride) -> bool {
    &&& m.alias is None
    &&& m.mode@ == "global"@
    &&& m.offset == 0
    &&& m.curve is None
}

/// `k` is the first position of `name` among `names`.
pub open spec fn first_seen_at(names: Seq<String>, name: Seq<char>, k: int) -> bool {
    &&& 0 <= k < names.len()
    &&& names[k]@ == name
    &&& forall|l: int| 0 <= l < k ==> (#[trigger] names[l])@ != name
}

/// `ms` holds settings named `name`.
pub open spec fn has_named(ms: Seq<MonitorOverride>, name: Seq<char>) -> bool {
    exists|j: int| 0 <= j < ms.len() && (#[trigger] ms[j]).name@ == name
}

/// `after` is `before` followed by fresh settings for each name of `names` that
/// `before` lacks, once each, in the order the names first appear.
pub open spec fn synced_with(after: Seq<MonitorOverride>, before: Seq<MonitorOverride>, names: Seq<String>) -> bool {
    &&& before.len() <= after.len()
    &&& after.subrange(0, before.len() as int) == before
    &&& forall|k: int| 0 <= k < names.len() ==> has_named(after, (#[trigger] names[k])@)
    &&& forall|j: int|
        before.len() <= j < after.len() ==> {
            &&& is_fresh_global(#[trigger] after[j])
            &&& !has_named(before, after[j].name@)
            &&& exists|k: int| first_seen_at(names, after[j].name@, k)
        }
    &&& forall|j1: int, j2: int, k1: int, k2: int|
        before.len() <= j1 < j2 < after.len() && #[trigger] first_seen_at(names, after[j1].name@, k1)
            && #[trigger] first_seen_at(names, after[j2].name@, k2) ==> k1 < k2
}

/// An edit of a curve, as the settings window makes them.
#[derive(Debug)]
pub enum CurveEdit {
    /// Replace the curve (a preset was chosen).
    Replace(BrightnessCurve),
    /// Move the point at `index` to where it was dragged: the first point stays at
    /// position 0, the last at position 1, and the others take `position` kept
    /// within 0.01..=0.99; the curve no longer follows a preset.
    DragPoint { index: usize, position: u64, brightness: u64 },
    /// Put the points in order (a drag ended).
    Sort,
    /// Add a point (double click), as `BrightnessCurve::add_point` does.
    AddPoint { position: u64, brightness: u64 },
    /// Remove a point (right click), as `BrightnessCurve::remove_point` does.
    RemovePoint { index: usize },
}

/// Where a dragged point goes: the first point stays at position 0 and the last at
/// position 1; any other point takes `position` kept within 0.01..=0.99.
pub open spec fn dragged_position(index: int, len: int, position: u64) -> u64 {
    if index == 0 {
        F64_0
    } else if index == len - 1 {
        F64_1
    } else {
        clamp_position(position, F64_0_01, F64_0_99)
    }
}

/// `after` is `before` with `edit` made, and `r` what the edit reported. Every edit
/// but moving a point keeps a well-formed curve well-formed (a replacement when the
/// new curve is well-formed).
pub open spec fn edit_done(before: BrightnessCurve, after: BrightnessCurve, edit: CurveEdit, r: bool) -> bool {
    &&& match edit {
        CurveEdit::DragPoint { .. } => true,
        CurveEdit::Replace(c) => c.well_formed() ==> after.well_formed(),
        _ => before.well_formed() ==> after.well_formed(),
    }
    &&& match edit {
        CurveEdit::Replace(c) => after == c && r,
        CurveEdit::DragPoint { index, position, brightness } => {
            &&& after.points@ == before.points@.update(
                index as int,
                pt(dragged_position(index as int, before.points@.len() as int, position), brightness),
            )
            &&& after.preset is None
            &&& r
        },
        CurveEdit::Sort => {
            &&& stable_sort_of(after.points@, before.points@)
            &&& after.points@.to_multiset() == before.points@.to_multiset()
            &&& after.preset == before.preset
            &&& r
        },
        CurveEdit::AddPoint { position, brightness } => {
            &&& r == (before.points@.len() < crate::curve::MAX_POINTS)
            &&& r ==> stable_sort_of(after.points@, before.points@.push(pt(position, brightness)))
            &&& r ==> after.points@.to_multiset() == before.points@.push(
                pt(position, brightness),
            ).to_multiset()
            &&& r ==> after.preset is None
            &&& !r ==> after == before
        },
        CurveEdit::RemovePoint { index } => {
            &&& r == (0 < index && index + 1 < before.points@.len())
            &&& r ==> after.points@ == before.points@.remove(index as int)
            &&& r ==> after.preset is None
            &&& !r ==> after == before
        },
    }
}

/// An edit that can be made to `c` (a moved point must exist).
pub open spec fn edit_fits(c: BrightnessCurve, edit: CurveEdit) -> bool {
    edit matches CurveEdit::DragPoint { index, .. } ==> index < c.points@.len()
}

/// Makes `edit` on `c`.
fn make_edit(c: &mut BrightnessCurve, edit: CurveEdit) -> (r: bool)
    requires
        edit_fits(*old(c), edit),
    ensures
        edit_done(*old(c), *final(c), edit, r),
{
    match edit {
        CurveEdit::Replace(new_curve) => {
            *c = new_curve;
            true
        },
        CurveEdit::DragPoint { index, position, brightness } => {
            let n = c.points.len();
            let position = if index == 0 {
                F64_0
            } else if index == n - 1 {
                F64_1
            } else {
                clamp_bits(position, F64_0_01, F64_0_99)
            };
            c.points.set(index, ControlPoint { position, brightness });
            c.preset = None;
            true
        },
        CurveEdit::Sort => {
            c.sort();
            true
        },
        CurveEdit::AddPoint { position, brightness } => c.add_point(position, brightness),
        CurveEdit::RemovePoint { index } => c.remove_point(index),
    }
}

/// The settings window's state: the settings being edited, the open tab (0 for all
/// displays, `i + 1` for the `i`-th display) and the point being dragged.
#[derive(Debug)]
pub struct EditorState {
    pub visible: bool,
    pub first_frame: bool,
    pub api_key_input: String,
    pub show_api_key: bool,
    pub update_interval_mins: u64,
    pub start_on_startup: bool,
    pub global_curve: BrightnessCurve,
    pub monitor_overrides: Vec<MonitorOverride>,
    pub active_tab: usize,
    pub dragging_point: Option<usize>,
}

/// Where the curve edited by the open tab is kept.
#[derive(Clone, Copy, Debug, PartialEq, Eq, Structural)]
pub enum CurveSlot {
    /// The shared curve.
    Global,
    /// The own curve of the display at this position.
    Monitor(usize),
}

impl EditorState {
    /// The display settings that the open tab shows, if it shows a display that is
    /// known.
    pub open spec fn tab_monitor(self) -> Option<int> {
        if self.active_tab > 0 && self.active_tab - 1 < self.monitor_overrides@.len() {
            Some(self.active_tab - 1)
        } else {
            None
        }
    }

    /// The open tab shows a display in the given mode.
    pub open spec fn tab_mode_is(self, mode: Seq<char>) -> bool {
        self.tab_monitor() matches Some(i) && self.monitor_overrides@[i].mode@ == mode
    }

    /// The curve that edits on the open tab change: the shared curve on the first
    /// tab, a display's own curve when the display is in custom mode and has one,
    /// and none otherwise.
    pub open spec fn editable_slot(self) -> Option<CurveSlot> {
        if self.active_tab == 0 {
            Some(CurveSlot::Global)
        } else if self.tab_mode_is("custom"@) && self.monitor_overrides@[self.tab_monitor()->0].curve is Some {
            Some(CurveSlot::Monitor((self.active_tab - 1) as usize))
        } else {
            None
        }
    }

    /// The curve in a slot.
    pub open spec fn curve_in(self, slot: CurveSlot) -> BrightnessCurve {
        match slot {
            CurveSlot::Global => self.global_curve,
            CurveSlot::Monitor(i) => self.monitor_overrides@[i as int].curve->0,
        }
    }

    /// The window's own fields (all but the curves, the display settings and the
    /// dragged point) are as in `old`.
    pub open spec fn same_window_fields(self, old: EditorState) -> bool {
        &&& self.visible == old.visible
        &&& self.first_frame == old.first_frame
        &&& self.api_key_input == old.api_key_input
        &&& self.show_api_key == old.show_api_key
        &&& self.update_interval_mins == old.update_interval_mins
        &&& self.start_on_startup == old.start_on_startup
        &&& self.active_tab == old.active_tab
    }

    /// The display settings are as in `old` except those at `i`, of which only the
    /// curve may differ (and is present).
    pub open spec fn only_monitor_curve_changed(self, old: EditorState, i: int) -> bool {
        &&& self.monitor_overrides@.len() == old.monitor_overrides@.len()
        &&& forall|j: int|
            0 <= j < self.monitor_overrides@.len() && j != i ==> #[trigger] self.monitor_overrides@[j]
                == old.monitor_overrides@[j]
        &&& self.monitor_overrides@[i].name == old.monitor_overrides@[i].name
        &&& self.monitor_overrides@[i].alias == old.monitor_overrides@[i].alias
        &&& self.monitor_overrides@[i].mode == old.monitor_overrides@[i].mode
        &&& self.monitor_overrides@[i].offset == old.monitor_overrides@[i].offset
        &&& self.monitor_overrides@[i].curve is Some
    }

    /// Of the curves, only the one in `slot` may differ from `old`.
    pub open spec fn only_curve_in_changed(self, old: EditorState, slot: Option<CurveSlot>) -> bool {
        match slot {
            Some(CurveSlot::Global) => self.monitor_overrides == old.monitor_overrides,
            Some(CurveSlot::Monitor(i)) => {
                &&& self.global_curve == old.global_curve
                &&& self.only_monitor_curve_changed(old, i as int)
            },
            None => self.global_curve == old.global_curve && self.monitor_overrides
                == old.monitor_overrides,
        }
    }

    /// Everything but the edited curve of the open tab is as in `old`.
    pub open spec fn only_edited_curve_changed(self, old: EditorState) -> bool {
        &&& self.same_window_fields(old)
        &&& self.dragging_point == old.dragging_point
        &&& self.only_curve_in_changed(old, old.editable_slot())
    }

    /// The display settings are as in `old` except those at `i`, whose name and
    /// offset are kept.
    pub open spec fn only_monitor_changed(self, old: EditorState, i: int) -> bool {
        &&& self.same_window_fields(old)
        &&& self.dragging_point == old.dragging_point
        &&& self.global_curve == old.global_curve
        &&& self.monitor_overrides@.len() == old.monitor_overrides@.len()
        &&& forall|j: int|
            0 <= j < self.monitor_overrides@.len() && j != i ==> #[trigger] self.monitor_overrides@[j]
                == old.monitor_overrides@[j]
        &&& self.monitor_overrides@[i].name == old.monitor_overrides@[i].name
        &&& self.monitor_overrides@[i].offset == old.monitor_overrides@[i].offset
    }

    /// Makes `edit` on the curve that the open tab edits; nothing happens (and the
    /// result is `false`) when the open tab has no editable curve.
    pub fn edit_active_curve(&mut self, edit: CurveEdit) -> (r: bool)
        requires
            old(self).editable_slot() matches Some(slot) ==> edit_fits(old(self).curve_in(slot), edit),
        ensures
            match old(self).editable_slot() {
                Some(slot) => {
                    &&& final(self).only_edited_curve_changed(*old(self))
                    &&& final(self).editable_slot() == Some(slot)
                    &&& edit_done(old(self).curve_in(slot), final(self).curve_in(slot), edit, r)
                },
                None => !r && *final(self) == *old(self),
            },
    {
        match self.editable_slot_of() {
            Some(CurveSlot::Global) => make_edit(&mut self.global_curve, edit),
            Some(CurveSlot::Monitor(i)) => {
                let ghost before = self.monitor_overrides@;
                let mut m = self.monitor_overrides.remove(i);
                let r = match &mut m.curve {
                    Some(c) => make_edit(c, edit),
                    None => false,
                };
                self.monitor_overrides.insert(i, m);
                assert(self.monitor_overrides@ =~= before.update(i as int, m));
                r
            },
            None => false,
        }
    }

    /// Switches the curve of the open tab to the preset called `id`, when the tab
    /// has an editable curve.
    pub fn apply_preset(&mut self, id: &str)
        ensures
            match old(self).editable_slot() {
                Some(slot) => {
                    &&& final(self).only_edited_curve_changed(*old(self))
                    &&& is_preset(final(self).curve_in(slot), preset_points(id@), preset_label(id@))
                },
                None => *final(self) == *old(self),
            },
    {
        let new_curve = BrightnessCurve::from_preset(id);
        self.edit_active_curve(CurveEdit::Replace(new_curve));
    }

    /// Ends a drag: the edited curve is put in order and no point is dragged any more.
    pub fn finish_drag(&mut self)
        ensures
            old(self).dragging_point is None ==> *final(self) == *old(self),
            old(self).dragging_point is Some ==> {
                &&& final(self).dragging_point is None
                &&& final(self).same_window_fields(*old(self))
                &&& final(self).only_curve_in_changed(*old(self), old(self).editable_slot())
                &&& old(self).editable_slot() matches Some(slot) ==> {
                    &&& stable_sort_of(final(self).curve_in(slot).points@, old(self).curve_in(slot).points@)
                    &&& final(self).curve_in(slot).preset == old(self).curve_in(slot).preset
                }
            },
    {
        if self.dragging_point.is_some() {
            self.edit_active_curve(CurveEdit::Sort);
            self.dragging_point = None;
        }
    }

    /// Adds fresh settings for every display in `detected` that has none yet (the
    /// tabs then show one tab per detected display).
    pub fn sync_monitors(&mut self, detected: &Vec<String>)
        ensures
            synced_with(final(self).monitor_overrides@, old(self).monitor_overrides@, detected@),
            final(self).same_window_fields(*old(self)),
            final(self).global_curve == old(self).global_curve,
            final(self).dragging_point == old(self).dragging_point,
    {
        let ghost before = self.monitor_overrides@;
        let mut k: usize = 0;
        while k < detected.len()
            invariant
                k <= detected@.len(),
                before.len() <= self.monitor_overrides@.len(),
                self.monitor_overrides@.subrange(0, before.len() as int) == before,
                forall|l: int| 0 <= l < k ==> has_named(self.monitor_overrides@, (#[trigger] detected@[l])@),
                forall|j: int|
                    before.len() <= j < self.monitor_overrides@.len() ==> {
                        &&& is_fresh_global(#[trigger] self.monitor_overrides@[j])
                        &&& !has_named(before, self.monitor_overrides@[j].name@)
                        &&& exists|l: int| l < k && first_seen_at(detected@, self.monitor_overrides@[j].name@, l)
                    },
                forall|j1: int, j2: int, k1: int, k2: int|
                    before.len() <= j1 < j2 < self.monitor_overrides@.len() && #[trigger] first_seen_at(
                        detected@,
                        self.monitor_overrides@[j1].name@,
                        k1,
                    ) && #[trigger] first_seen_at(detected@, self.monitor_overrides@[j2].name@, k2) ==> k1 < k2,
                self.same_window_fields(*old(self)),
                self.global_curve == old(self).global_curve,
                self.dragging_point == old(self).dragging_point,
            decreases detected@.len() - k,
        {
            let name = &detected[k];
            let found = find_override(&self.monitor_overrides, name.as_str());
            if found.is_none() {
                let ghost ms = self.monitor_overrides@;
                proof {
                    assert forall|l: int| 0 <= l < k implies (#[trigger] detected@[l])@ != name@ by {
                        if detected@[l]@ == name@ {
                            assert(has_named(ms, detected@[l]@));
                            let j = choose|j: int| 0 <= j < ms.len() && (#[trigger] ms[j]).name@ == detected@[l]@;
                        }
                    }
                    assert(first_seen_at(detected@, name@, k as int));
                    assert forall|j: int| 0 <= j < before.len() implies (#[trigger] before[j]).name@ != name@ by {
                        assert(ms[j] == ms.subrange(0, before.len() as int)[j]);
                    }
                }
                let m = MonitorOverride::new_global(name.clone());
                self.monitor_overrides.push(m);
                proof {
                    let now = self.monitor_overrides@;
                    assert(now.subrange(0, before.len() as int) =~= ms.subrange(0, before.len() as int));
                    assert forall|l: int| 0 <= l <= k implies has_named(now, (#[trigger] detected@[l])@) by {
                        if l < k {
                            let j = choose|j: int| 0 <= j < ms.len() && (#[trigger] ms[j]).name@ == detected@[l]@;
                            assert(now[j] == ms[j]);
                        } else {
                            assert(now[ms.len() as int].name@ == detected@[l]@);
                        }
                    }
                    assert forall|j: int| before.len() <= j < now.len() implies {
                        &&& is_fresh_global(#[trigger] now[j])
                        &&& !has_named(before, now[j].name@)
                        &&& exists|l: int| l < k + 1 && first_seen_at(detected@, now[j].name@, l)
                    } by {
                        if j < ms.len() {
                            assert(now[j] == ms[j]);
                        } else {
                            assert(now[j].name@ == name@);
                            assert(first_seen_at(detected@, now[j].name@, k as int));
                            if has_named(before, name@) {
                                let b = choose|b: int| 0 <= b < before.len() && (#[trigger] before[b]).name@ == name@;
                            }
                        }
                    }
                    assert forall|j1: int, j2: int, k1: int, k2: int|
                        before.len() <= j1 < j2 < now.len() && #[trigger] first_seen_at(detected@, now[j1].name@, k1)
                            && #[trigger] first_seen_at(detected@, now[j2].name@, k2) implies k1 < k2 by {
                        if j2 < ms.len() {
                            assert(now[j1] == ms[j1] && now[j2] == ms[j2]);
                        } else {
                            assert(now[j1] == ms[j1]);
                            let l = choose|l: int| l < k && first_seen_at(detected@, ms[j1].name@, l);
                            assert(now[j2].name@ == name@);
                            assert(first_seen_at(detected@, name@, k as int));
                            // the first position of a name is unique
                            if k1 != l {
                                if k1 < l {
                                    assert(detected@[k1]@ == ms[j1].name@);
                                } else {
                                    assert(detected@[l]@ == ms[j1].name@);
                                }
                            }
                            if k2 != k {
                                if k2 < k {
                                    assert(detected@[k2]@ == name@);
                                } else {
                                    assert(detected@[k as int]@ == name@);
                                }
                            }
                        }
                    }
                }
            } else {
                proof {
                    let ms = self.monitor_overrides@;
                    let i = found->0;
                    assert(ms[i as int].name@ == name@);
                    assert forall|l: int| 0 <= l <= k implies has_named(ms, (#[trigger] detected@[l])@) by {
                        if l == k {
                            assert(ms[i as int].name@ == detected@[l]@);
                        }
                    }
                }
            }
            k = k + 1;
        }
        proof {
            let now = self.monitor_overrides@;
            assert forall|j: int| before.len() <= j < now.len() implies {
                &&& is_fresh_global(#[trigger] now[j])
                &&& !has_named(before, now[j].name@)
                &&& exists|k: int| first_seen_at(detected@, now[j].name@, k)
            } by {
                let l = choose|l: int| l < k && first_seen_at(detected@, now[j].name@, l);
            }
        }
    }

    /// Sets the alias of the display at `index` (an empty alias removes it).
    pub fn set_monitor_alias(&mut self, index: usize, alias: String)
        ensures
            index >= old(self).monitor_overrides@.len() ==> *final(self) == *old(self),
            index < old(self).monitor_overrides@.len() ==> {
                &&& final(self).only_monitor_changed(*old(self), index as int)
                &&& final(self).monitor_overrides@[index as int].alias == (if alias@.len() == 0 {
                    None
                } else {
                    Some(alias)
                })
                &&& final(self).monitor_overrides@[index as int].mode == old(self).monitor_overrides@[index as int].mode
                &&& final(self).monitor_overrides@[index as int].curve == old(self).monitor_overrides@[index as int].curve
            },
    {
        if index >= self.monitor_overrides.len() {
            return;
        }
        let ghost before = self.monitor_overrides@;
        let mut m = self.monitor_overrides.remove(index);
        m.alias = if alias.as_str().is_empty() {
            None
        } else {
            Some(alias)
        };
        self.monitor_overrides.insert(index, m);
        assert(self.monitor_overrides@ =~= before.update(index as int, m));
    }

    /// Sets the mode of the display at `index`; a display switched to custom mode
    /// without a curve of its own gets a copy of the shared curve.
    pub fn set_monitor_mode(&mut self, index: usize, mode: &str)
        ensures
            index >= old(self).monitor_overrides@.len() ==> *final(self) == *old(self),
            index < old(self).monitor_overrides@.len() ==> {
                let before = old(self).monitor_overrides@[index as int];
                let after = final(self).monitor_overrides@[index as int];
                &&& final(self).only_monitor_changed(*old(self), index as int)
                &&& after.mode@ == mode@
                &&& after.alias == before.alias
                &&& if mode@ == "custom"@ && before.curve is None {
                    after.curve matches Some(c) && same_curve(c, old(self).global_curve)
                } else {
                    after.curve == before.curve
                }
            },
    {
        if index >= self.monitor_overrides.len() {
            return;
        }
        let ghost before = self.monitor_overrides@;
        let mut m = self.monitor_overrides.remove(index);
        m.mode = crate::text::string_from(mode);
        if str_eq(mode, "custom") && m.curve.is_none() {
            m.curve = Some(self.global_curve.clone());
        }
        self.monitor_overrides.insert(index, m);
        assert(self.monitor_overrides@ =~= before.update(index as int, m));
    }

    /// The state of a window opened on `config`: hidden, the interval in whole
    /// minutes, the first tab open, nothing dragged.
    pub fn new(config: Config) -> (s: Self)
        ensures
            !s.visible,
            s.first_frame,
            s.api_key_input == config.api_key,
            !s.show_api_key,
            s.update_interval_mins == config.update_interval_secs / 60,
            s.start_on_startup == config.start_on_startup,
            s.global_curve == config.global_curve,
            s.monitor_overrides == config.monitors,
            s.active_tab == 0,
            s.dragging_point is None,
    {
        EditorState {
            visible: false,
            first_frame: true,
            api_key_input: config.api_key,
            show_api_key: false,
            update_interval_mins: config.update_interval_secs / 60,
            start_on_startup: config.start_on_startup,
            global_curve: config.global_curve,
            monitor_overrides: config.monitors,
            active_tab: 0,
            dragging_point: None,
        }
    }

    /// Reloads the edited settings from `config` and opens the first tab.
    pub fn load_fields_from_config(&mut self, config: Config)
        ensures
            final(self).api_key_input == config.api_key,
            final(self).update_interval_mins == config.update_interval_secs / 60,
            final(self).start_on_startup == config.start_on_startup,
            final(self).global_curve == config.global_curve,
            final(self).monitor_overrides == config.monitors,
            final(self).active_tab == 0,
            final(self).dragging_point is None,
            final(self).visible == old(self).visible,
            final(self).first_frame == old(self).first_frame,
            final(self).show_api_key == old(self).show_api_key,
    {
        self.api_key_input = config.api_key;
        self.update_interval_mins = config.update_interval_secs / 60;
        self.start_on_startup = config.start_on_startup;
        self.global_curve = config.global_curve;
        self.monitor_overrides = config.monitors;
        self.active_tab = 0;
        self.dragging_point = None;
    }

    /// The settings to save: the edited ones, the interval back in seconds, and the
    /// brightness bounds of `current`.
    pub fn to_config(&self, current: &Config) -> (c: Config)
        requires
            self.update_interval_mins <= u64::MAX / 60,
        ensures
            c.api_key == self.api_key_input,
            c.update_interval_secs == self.update_interval_mins * 60,
            c.start_on_startup == self.start_on_startup,
            same_curve(c.global_curve, self.global_curve),
            same_overrides(c.monitors@, self.monitor_overrides@),
            c.min_brightness == current.min_brightness,
            c.max_brightness == current.max_brightness,
    {
        Config {
            api_key: self.api_key_input.clone(),
            min_brightness: current.min_brightness,
            max_brightness: current.max_brightness,
            update_interval_secs: self.update_interval_mins * 60,
            start_on_startup: self.start_on_startup,
            global_curve: self.global_curve.clone(),
            monitors: clone_overrides(&self.monitor_overrides),
        }
    }

    fn tab_index(&self) -> (r: Option<usize>)
        ensures
            r matches Some(i) ==> self.tab_monitor() == Some(i as int),
            r is None ==> self.tab_monitor() is None,
    {
        if self.active_tab > 0 && self.active_tab - 1 < self.monitor_overrides.len() {
            Some(self.active_tab - 1)
        } else {
            None
        }
    }

    fn tab_mode_eq(&self, mode: &str) -> (r: bool)
        ensures
            r == self.tab_mode_is(mode@),
    {
        match self.tab_index() {
            Some(i) => str_eq(self.monitor_overrides[i].mode.as_str(), mode),
            None => false,
        }
    }

    /// The open tab's curve can be edited: the first tab, or a display in custom mode.
    pub fn active_curve_is_editable(&self) -> (r: bool)
        ensures
            r == (self.active_tab == 0 || self.tab_mode_is("custom"@)),
    {
        self.active_tab == 0 || self.tab_mode_eq("custom")
    }

    /// The open tab shows a display that is ignored.
    pub fn is_ignored_tab(&self) -> (r: bool)
        ensures
            r == self.tab_mode_is("ignored"@),
    {
        self.tab_mode_eq("ignored")
    }

    /// Where the curve that edits on the open tab change is kept.
    pub fn editable_slot_of(&self) -> (r: Option<CurveSlot>)
        ensures
            r == self.editable_slot(),
    {
        if self.active_tab == 0 {
            Some(CurveSlot::Global)
        } else if self.tab_mode_eq("custom") && self.monitor_overrides[self.active_tab - 1].curve.is_some() {
            Some(CurveSlot::Monitor(self.active_tab - 1))
        } else {
            None
        }
    }

    /// The curve the open tab shows: the shared curve, except on a display in custom
    /// mode, which shows its own curve (the "natural" preset when it has none).
    pub fn active_curve_display(&self) -> (c: BrightnessCurve)
        ensures
            self.active_tab == 0 ==> same_curve(c, self.global_curve),
            self.active_tab != 0 && self.tab_mode_is("custom"@) ==> match self.monitor_overrides@[self.tab_monitor()->0].curve {
                Some(own) => same_curve(c, own),
                None => is_preset(c, natural_points(), "natural"@),
            },
            self.active_tab != 0 && !self.tab_mode_is("custom"@) ==> same_curve(c, self.global_curve),
    {
        if self.active_tab == 0 {
            return self.global_curve.clone();
        }
        if self.tab_mode_eq("custom") {
            match &self.monitor_overrides[self.active_tab - 1].curve {
                Some(own) => own.clone(),
                None => BrightnessCurve::default(),
            }
        } else {
            self.global_curve.clone()
        }
    }

    /// The label of the tab of the display called `raw_name`: the label of its
    /// settings, or its cleaned name when it has none.
    pub fn tab_label(&self, raw_name: &str) -> (r: String)
        ensures
            (exists|i: int| crate::apply::is_first_named(self.monitor_overrides@, raw_name@, i))
                ==> exists|i: int| #[trigger] crate::apply::is_first_named(self.monitor_overrides@, raw_name@, i)
                && r@ == label_of(self.monitor_overrides@[i]),
            (forall|j: int| 0 <= j < self.monitor_overrides@.len() ==> (#[trigger] self.monitor_overrides@[j]).name@ != raw_name@)
                ==> r@ == clean_name(raw_name@),
    {
        match find_override(&self.monitor_overrides, raw_name) {
            Some(i) => self.monitor_overrides[i].display_label(),
            None => clean_display_name(raw_name),
        }
    }
}

} // verus!

verus! {

/// Once every detected display has settings, synchronising again adds nothing.
pub proof fn lemma_sync_adds_nothing_twice(
    after: Seq<MonitorOverride>,
    before: Seq<MonitorOverride>,
    names: Seq<String>,
)
    requires
        forall|k: int| 0 <= k < names.len() ==> has_named(before, (#[trigger] names[k])@),
        synced_with(after, before, names),
    ensures
        after == before,
{
    if after.len() > before.len() {
        let j = before.len() as int;
        assert(is_fresh_global(after[j]));
        let k = choose|k: int| first_seen_at(names, after[j].name@, k);
        assert(has_named(before, names[k]@));
    }
    assert(after =~= after.subrange(0, before.len() as int));
}

/// The interval saved in seconds reloads as the same number of minutes.
pub proof fn lemma_saved_interval_reloads(minutes: u64, saved_secs: u64)
    requires
        minutes <= u64::MAX / 60,
        saved_secs == minutes * 60,
    ensures
        saved_secs / 60 == minutes,
{
    assert((minutes * 60) / 60 == minutes as int) by (nonlinear_arith);
}

} // verus!

verus! {

/// An edit as the curve editor makes it: a replacement with ends at 0 and 1, a
/// point added at a position between 0 and 1, or a point dragged to a position
/// that is a number.
pub open spec fn edit_in_plot(edit: CurveEdit) -> bool {
    match edit {
        CurveEdit::Replace(c) => pinned_ends(c.points@),
        CurveEdit::AddPoint { position, .. } => position_key(F64_0) <= position_key(position)
            <= position_key(F64_1),
        CurveEdit::DragPoint { position, .. } => !is_nan_bits(position),
        _ => true,
    }
}

/// The editor keeps a curve's shape: every edit it makes (dragging a point, ending a
/// drag, adding and removing points, choosing a preset) leaves a curve of two to
/// `MAX_POINTS` points with its first point at position 0, its last at position 1,
/// and every position between 0 and 1.
pub proof fn lemma_edits_keep_pinned_ends(
    before: BrightnessCurve,
    after: BrightnessCurve,
    edit: CurveEdit,
    r: bool,
)
    requires
        pinned_ends(before.points@),
        edit_fits(before, edit),
        edit_in_plot(edit),
        edit_done(before, after, edit, r),
    ensures
        pinned_ends(after.points@),
{
    let b = before.points@;
    let a = after.points@;
    match edit {
        CurveEdit::Replace(c) => {},
        CurveEdit::DragPoint { index, position, brightness } => {
            let q = dragged_position(index as int, b.len() as int, position);
            assert(position_key(F64_0) <= position_key(q) <= position_key(F64_1));
            assert forall|i: int| 0 <= i < a.len() implies position_key(F64_0) <= #[trigger] key_of(
                a[i],
            ) <= position_key(F64_1) by {
                if i != index {
                    assert(a[i] == b[i]);
                }
            }
        },
        CurveEdit::Sort => {
            lemma_sort_keeps_pinned_ends(b, a, b.len() - 1);
        },
        CurveEdit::AddPoint { position, brightness } => {
            if r {
                let input = b.push(pt(position, brightness));
                assert(input[b.len() - 1] == b.last());
                assert forall|i: int| 0 <= i < input.len() implies position_key(F64_0)
                    <= #[trigger] key_of(input[i]) <= position_key(F64_1) by {
                    if i < b.len() {
                        assert(input[i] == b[i]);
                    }
                }
                lemma_sort_keeps_pinned_ends(input, a, b.len() - 1);
            }
        },
        CurveEdit::RemovePoint { index } => {
            if r {
                assert(a[0] == b[0]);
                assert(a.last() == b.last());
                assert forall|i: int| 0 <= i < a.len() implies position_key(F64_0)
                    <= #[trigger] key_of(a[i]) <= position_key(F64_1) by {
                    if i < index {
                        assert(a[i] == b[i]);
                    } else {
                        assert(a[i] == b[i + 1]);
                    }
                }
            }
        },
    }
}

} // verus!


verus! {

/// Only the first tab edits the shared curve. A display's tab edits that display's
/// own curve when the display is in custom mode and has one, and nothing otherwise
/// (so there choosing a preset or editing the curve changes nothing).
pub proof fn lemma_display_tabs_edit_only_their_own_curve(s: EditorState)
    ensures
        s.editable_slot() == Some(CurveSlot::Global) <==> s.active_tab == 0,
        s.active_tab > 0 ==> (s.editable_slot() is Some <==> ({
            let i = s.active_tab - 1;
            &&& i < s.monitor_overrides@.len()
            &&& s.monitor_overrides@[i].mode@ == "custom"@
            &&& s.monitor_overrides@[i].curve is Some
        })),
        s.editable_slot() matches Some(CurveSlot::Monitor(i)) ==> {
            &&& i + 1 == s.active_tab
            &&& i < s.monitor_overrides@.len()
            &&& s.monitor_overrides@[i as int].mode@ == "custom"@
            &&& s.monitor_overrides@[i as int].curve is Some
        },
{
}

} // verus!
