use sunrise_brightness::curve::BrightnessCurve;
use sunrise_brightness::monitor::{MonitorOverride, clean_display_name};
use sunrise_brightness::remote::{place_label, version_from_tag};

#[test]
fn clean_display_name_numbers_displays() {
    assert_eq!(clean_display_name("\\\\.\\DISPLAY1"), "Display 1");
    assert_eq!(clean_display_name("\\\\.\\DISPLAY2\\Monitor0"), "Display 2");
    assert_eq!(clean_display_name("\\\\?\\DISPLAY3"), "Display 3");
    assert_eq!(clean_display_name("\\\\.\\\\\\.\\DISPLAY12"), "Display 12");
    assert_eq!(clean_display_name("DISPLAY+5"), "Display 5");
    assert_eq!(clean_display_name("DISPLAY007"), "Display 7");
}

#[test]
fn clean_display_name_keeps_other_names() {
    assert_eq!(clean_display_name("DELL U2720Q"), "DELL U2720Q");
    assert_eq!(clean_display_name("DISPLAY"), "DISPLAY");
    assert_eq!(clean_display_name("DISPLAY-1"), "DISPLAY-1");
    assert_eq!(clean_display_name("DISPLAY+"), "DISPLAY+");
    assert_eq!(clean_display_name("DISPLAY4294967296"), "DISPLAY4294967296");
    assert_eq!(clean_display_name("DISPLAY4294967295"), "Display 4294967295");
    assert_eq!(clean_display_name("Display 1"), "Display 1");
    assert_eq!(clean_display_name("eDP-1\\x"), "eDP-1");
    assert_eq!(clean_display_name(""), "");
    assert_eq!(clean_display_name("\\\\.\\"), "");
    assert_eq!(clean_display_name("\\"), "");
}

#[test]
fn clean_display_name_twice_is_once() {
    for raw in ["\\\\.\\DISPLAY1\\Monitor0", "DISPLAY0042", "a\\b", "\\\\?\\x"] {
        let once = clean_display_name(raw);
        assert_eq!(clean_display_name(&once), once);
        assert!(!once.contains('\\'));
    }
}

#[test]
fn monitor_override_labels() {
    let mut m = MonitorOverride::new_global("\\\\.\\DISPLAY3".to_string());
    assert_eq!(m.mode, "global");
    assert_eq!(m.offset, 0);
    assert!(m.alias.is_none() && m.curve.is_none());
    assert_eq!(m.display_label(), "Display 3");
    m.alias = Some(String::new());
    assert_eq!(m.display_label(), "Display 3");
    m.alias = Some("Left".to_string());
    assert_eq!(m.display_label(), "Left");
}

#[test]
fn monitor_override_evaluation_by_mode() {
    let global = BrightnessCurve::linear();
    let mut m = MonitorOverride::new_global("X".to_string());
    let e = m.evaluate(&global).unwrap();
    assert!(std::ptr::eq(e.curve, &global) && e.offset.is_none());
    m.mode = "ignored".to_string();
    assert!(m.evaluate(&global).is_none());
    m.mode = "offset".to_string();
    m.offset = -20;
    let e = m.evaluate(&global).unwrap();
    assert!(std::ptr::eq(e.curve, &global));
    assert_eq!(e.offset, Some(-20));
    m.mode = "custom".to_string();
    let e = m.evaluate(&global).unwrap();
    assert!(std::ptr::eq(e.curve, &global) && e.offset.is_none());
    m.curve = Some(BrightnessCurve::night_owl());
    let e = m.evaluate(&global).unwrap();
    assert_eq!(e.curve.preset.as_deref(), Some("night_owl"));
    assert!(e.offset.is_none());
    m.mode = "weird".to_string();
    let e = m.evaluate(&global).unwrap();
    assert!(std::ptr::eq(e.curve, &global));
}

#[test]
fn release_tags_lose_leading_v() {
    assert_eq!(version_from_tag("v1.2.3"), "1.2.3");
    assert_eq!(version_from_tag("vv0.9"), "0.9");
    assert_eq!(version_from_tag("1.0v"), "1.0v");
    assert_eq!(version_from_tag("v"), "");
}

#[test]
fn place_labels() {
    assert_eq!(place_label("Lyon", "FR").as_deref(), Some("Lyon, FR"));
    assert_eq!(place_label("Lyon", "").as_deref(), Some("Lyon, "));
    assert_eq!(place_label("", "FR"), None);
}
