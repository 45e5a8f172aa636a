use sunrise_brightness::config::Config;
use sunrise_brightness::curve::{BrightnessCurve, ControlPoint};
use sunrise_brightness::editor::{CurveEdit, CurveSlot, EditorState};
use sunrise_brightness::monitor::MonitorOverride;

fn editor() -> EditorState {
    let mut c = Config::default();
    c.update_interval_secs = 300;
    c.api_key = "key".to_string();
    EditorState::new(c)
}

#[test]
fn editor_opens_on_config() {
    let e = editor();
    assert!(!e.visible && e.first_frame && !e.show_api_key);
    assert_eq!(e.update_interval_mins, 5);
    assert_eq!(e.api_key_input, "key");
    assert_eq!(e.active_tab, 0);
    assert!(e.dragging_point.is_none());
    assert!(e.active_curve_is_editable());
    assert_eq!(e.editable_slot_of(), Some(CurveSlot::Global));
}

#[test]
fn editor_saves_and_reloads() {
    let mut e = editor();
    e.update_interval_mins = 7;
    e.active_tab = 3;
    let mut current = Config::default();
    current.max_brightness = 80;
    let saved = e.to_config(&current);
    assert_eq!(saved.update_interval_secs, 420);
    assert_eq!(saved.max_brightness, 80);
    assert_eq!(saved.api_key, "key");
    e.load_fields_from_config(saved);
    assert_eq!(e.update_interval_mins, 7);
    assert_eq!(e.active_tab, 0);
}

#[test]
fn editor_syncs_detected_displays() {
    let mut e = editor();
    let detected = vec!["B".to_string(), "A".to_string(), "B".to_string()];
    e.sync_monitors(&detected);
    let names: Vec<&str> = e.monitor_overrides.iter().map(|m| m.name.as_str()).collect();
    assert_eq!(names, vec!["B", "A"]);
    e.sync_monitors(&detected);
    assert_eq!(e.monitor_overrides.len(), 2);
    e.sync_monitors(&vec!["\\\\.\\DISPLAY2".to_string()]);
    assert_eq!(e.monitor_overrides.len(), 3);
    assert_eq!(e.tab_label("\\\\.\\DISPLAY2"), "Display 2");
    assert_eq!(e.tab_label("\\\\.\\DISPLAY9"), "Display 9");
}

#[test]
fn editor_modes_and_aliases() {
    let mut e = editor();
    e.monitor_overrides.push(MonitorOverride::new_global("A".to_string()));
    e.active_tab = 1;
    assert!(!e.active_curve_is_editable());
    assert_eq!(e.editable_slot_of(), None);
    e.set_monitor_mode(0, "ignored");
    assert!(e.is_ignored_tab());
    e.set_monitor_mode(0, "custom");
    assert!(e.active_curve_is_editable());
    assert_eq!(e.monitor_overrides[0].curve.as_ref().unwrap().preset.as_deref(), Some("natural"));
    assert_eq!(e.editable_slot_of(), Some(CurveSlot::Monitor(0)));
    e.set_monitor_alias(0, "Left".to_string());
    assert_eq!(e.monitor_overrides[0].alias.as_deref(), Some("Left"));
    e.set_monitor_alias(0, String::new());
    assert!(e.monitor_overrides[0].alias.is_none());
    e.set_monitor_alias(5, "nothing".to_string());
    assert_eq!(e.monitor_overrides.len(), 1);
}

#[test]
fn editor_edits_the_open_tab() {
    let mut e = editor();
    e.monitor_overrides.push(MonitorOverride::new_global("A".to_string()));
    e.set_monitor_mode(0, "custom");
    e.active_tab = 1;
    e.apply_preset("linear");
    assert_eq!(e.monitor_overrides[0].curve.as_ref().unwrap().preset.as_deref(), Some("linear"));
    assert_eq!(e.global_curve.preset.as_deref(), Some("natural"));
    let shown = e.active_curve_display();
    assert_eq!(shown.points.len(), 3);
    assert!(e.edit_active_curve(CurveEdit::AddPoint { position: 0.25f64.to_bits(), brightness: 1.0f64.to_bits() }));
    assert_eq!(e.monitor_overrides[0].curve.as_ref().unwrap().points.len(), 4);
    assert!(e.edit_active_curve(CurveEdit::DragPoint { index: 1, position: 0.9f64.to_bits(), brightness: 2.0f64.to_bits() }));
    e.dragging_point = Some(1);
    e.finish_drag();
    assert!(e.dragging_point.is_none());
    let pts = &e.monitor_overrides[0].curve.as_ref().unwrap().points;
    assert_eq!(pts[2], ControlPoint { position: 0.9f64.to_bits(), brightness: 2.0f64.to_bits() });
    assert!(!e.edit_active_curve(CurveEdit::RemovePoint { index: 0 }));
    assert!(e.edit_active_curve(CurveEdit::RemovePoint { index: 1 }));
    e.active_tab = 0;
    e.apply_preset("night_owl");
    assert_eq!(e.global_curve.preset.as_deref(), Some("night_owl"));
    e.active_tab = 2;
    assert_eq!(e.editable_slot_of(), None);
    assert!(!e.edit_active_curve(CurveEdit::Replace(BrightnessCurve::linear())));
    assert_eq!(e.active_curve_display().preset.as_deref(), Some("night_owl"));
}

#[test]
fn dragging_pins_the_ends_and_clamps_inner_points() {
    let mut e = editor();
    e.apply_preset("linear");
    let pos = |e: &EditorState, i: usize| f64::from_bits(e.global_curve.points[i].position);
    assert!(e.edit_active_curve(CurveEdit::DragPoint { index: 0, position: 0.4f64.to_bits(), brightness: 20.0f64.to_bits() }));
    assert_eq!(pos(&e, 0), 0.0);
    assert_eq!(f64::from_bits(e.global_curve.points[0].brightness), 20.0);
    assert!(e.global_curve.preset.is_none());
    assert!(e.edit_active_curve(CurveEdit::DragPoint { index: 2, position: 0.1f64.to_bits(), brightness: 0.0f64.to_bits() }));
    assert_eq!(pos(&e, 2), 1.0);
    assert!(e.edit_active_curve(CurveEdit::DragPoint { index: 1, position: 1.7f64.to_bits(), brightness: 0.0f64.to_bits() }));
    assert_eq!(pos(&e, 1), 0.99);
    assert!(e.edit_active_curve(CurveEdit::DragPoint { index: 1, position: (-0.3f64).to_bits(), brightness: 0.0f64.to_bits() }));
    assert_eq!(pos(&e, 1), 0.01);
    assert!(e.edit_active_curve(CurveEdit::DragPoint { index: 1, position: 0.42f64.to_bits(), brightness: 0.0f64.to_bits() }));
    assert_eq!(pos(&e, 1), 0.42);
    assert!(e.edit_active_curve(CurveEdit::DragPoint { index: 1, position: f64::NAN.to_bits(), brightness: 0.0f64.to_bits() }));
    assert!(pos(&e, 1).is_nan());
}

#[test]
fn editing_keeps_ends_at_zero_and_one() {
    let mut e = editor();
    e.apply_preset("night_owl");
    assert!(e.edit_active_curve(CurveEdit::AddPoint { position: 1.0f64.to_bits(), brightness: 9.0f64.to_bits() }));
    assert!(e.edit_active_curve(CurveEdit::AddPoint { position: (-0.0f64).to_bits(), brightness: 9.0f64.to_bits() }));
    assert!(e.edit_active_curve(CurveEdit::DragPoint { index: 2, position: 0.95f64.to_bits(), brightness: 9.0f64.to_bits() }));
    e.dragging_point = Some(2);
    e.finish_drag();
    assert!(e.edit_active_curve(CurveEdit::RemovePoint { index: 3 }));
    let pts = &e.global_curve.points;
    assert!(pts.len() >= 2 && pts.len() <= 10);
    assert_eq!(pts[0].position, 0.0f64.to_bits());
    assert_eq!(pts[pts.len() - 1].position, 1.0f64.to_bits());
}
