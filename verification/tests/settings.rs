use butter::settings::engine_version::EngineVersion;
use butter::settings::{
    default_height, default_msaa_sample_count, default_physics_framerate, default_title, default_width,
    EngineSettings, WindowSettings,
};

#[test]
fn defaults_of_missing_settings() {
    assert_eq!(default_height(), 600);
    assert_eq!(default_width(), 800);
    assert_eq!(default_physics_framerate(), 240);
    assert_eq!(default_msaa_sample_count(), 4);
    assert_eq!(default_title(), "butter game");
}

#[test]
fn version_text_form() {
    assert_eq!(EngineVersion::new(1, 2, 3).to_version_string(), "1.2.3");
    assert_eq!(EngineVersion::new(0, 0, 0).to_version_string(), "0.0.0");
    assert_eq!(EngineVersion::new(255, 10, 100).to_version_string(), "255.10.100");
    assert_eq!(EngineVersion::current().to_version_string(), "0.0.0");
}

#[test]
fn version_numbers() {
    let v = EngineVersion::new(4, 5, 6);
    assert_eq!((v.major(), v.minor(), v.patch()), (4, 5, 6));
    assert!(EngineVersion::current() == EngineVersion::new(0, 0, 0));
    assert!(EngineVersion::current() != v);
}

#[test]
fn version_read_from_text() {
    assert_eq!(EngineVersion::from_text("1.2.3"), Some(EngineVersion::new(1, 2, 3)));
    assert_eq!(EngineVersion::from_text("255.0.255"), Some(EngineVersion::new(255, 0, 255)));
    assert_eq!(EngineVersion::from_text("+1.02.003"), Some(EngineVersion::new(1, 2, 3)));
    assert_eq!(EngineVersion::from_text("1.2.3.4"), Some(EngineVersion::new(1, 2, 3)));
    assert_eq!(EngineVersion::from_text("1.2.3."), Some(EngineVersion::new(1, 2, 3)));
}

#[test]
fn version_text_rejected() {
    assert_eq!(EngineVersion::from_text(""), None);
    assert_eq!(EngineVersion::from_text("1.2"), None);
    assert_eq!(EngineVersion::from_text("1..3"), None);
    assert_eq!(EngineVersion::from_text("256.0.0"), None);
    assert_eq!(EngineVersion::from_text("1.2.-3"), None);
    assert_eq!(EngineVersion::from_text("1.2.+"), None);
    assert_eq!(EngineVersion::from_text("a.b.c"), None);
    assert_eq!(EngineVersion::from_text(" 1.2.3"), None);
    assert_eq!(EngineVersion::from_text("1.2.99999999999999999999"), None);
}

#[test]
fn version_text_reads_back() {
    for (a, b, c) in [(0, 0, 0), (1, 2, 3), (9, 10, 99), (100, 255, 7)] {
        let v = EngineVersion::new(a, b, c);
        assert_eq!(EngineVersion::from_text(&v.to_version_string()), Some(v));
    }
}

#[test]
fn settings_hold_their_values() {
    let e = EngineSettings { version: EngineVersion::new(0, 1, 0) };
    assert_eq!(e.version.minor(), 1);
    let w = WindowSettings {
        title: default_title(),
        width: default_width(),
        height: default_height(),
        msaa_sample_count: default_msaa_sample_count(),
        high_dpi: false,
        fullscreen: false,
        allow_transparency: false,
    };
    assert_eq!(w.clone().width, 800);
}
