//! Visuals: default detection, absorption, and equality across coordinate
//! forms.

use tin_drivers_midi::devices::launch_control_xl_mk2::LCXL2Position;
use tin_drivers_midi::devices::launch_control_xl_mk2::LCXL2Visual;
use tin_drivers_midi::devices::launchpad_mini_mk3::visual::LPM3Visual;
use tin_drivers_midi::devices::launchpad_mini_mk3::LPM3Position;
use tin_drivers_midi::MidiPhysicalPosition;
use tin_drivers_midi::MidiVisual;

#[test]
fn lpm3_default_visuals() {
    assert!(LPM3Visual::Off(LPM3Position::Raw(11)).is_default());
    assert!(LPM3Visual::Static(LPM3Position::Raw(11), 0).is_default());
    assert!(!LPM3Visual::Static(LPM3Position::Raw(11), 1).is_default());
    assert!(LPM3Visual::Flashing(LPM3Position::Raw(11), 0, 0).is_default());
    assert!(!LPM3Visual::Flashing(LPM3Position::Raw(11), 0, 1).is_default());
    assert!(LPM3Visual::Pulsing(LPM3Position::Raw(11), 0).is_default());
    assert!(LPM3Visual::RGB(LPM3Position::Raw(11), 0, 0, 0).is_default());
    assert!(!LPM3Visual::RGB(LPM3Position::Raw(11), 0, 0, 1).is_default());
}

#[test]
fn lcxl2_default_visuals() {
    assert!(LCXL2Visual::Off(LCXL2Position::Raw(0)).is_default());
    assert!(LCXL2Visual::Static(LCXL2Position::Raw(0), 0, 0).is_default());
    assert!(!LCXL2Visual::Static(LCXL2Position::Raw(0), 1, 0).is_default());
}

#[test]
fn absorption_is_equality_across_coordinate_forms() {
    let a = LPM3Visual::Static(LPM3Position::Grid(1, 0), 5);
    let b = LPM3Visual::Static(LPM3Position::Raw(91), 5);
    assert!(a.is_absorbed(&b));
    assert!(b.is_absorbed(&a));
    assert_eq!(a, b);
    let c = LPM3Visual::Static(LPM3Position::Raw(91), 6);
    assert!(!a.is_absorbed(&c));
    let d = LPM3Visual::Pulsing(LPM3Position::Raw(91), 5);
    assert!(!a.is_absorbed(&d));

    let e = LCXL2Visual::Off(LCXL2Position::Knob(1, 1));
    let f = LCXL2Visual::Off(LCXL2Position::Raw(0));
    assert!(e.is_absorbed(&f));
    assert_eq!(e, f);
    assert!(!e.is_absorbed(&LCXL2Visual::Static(LCXL2Position::Raw(0), 0, 0)));
}

#[test]
fn visual_raw_position_follows_its_position() {
    let v = LPM3Visual::Flashing(LPM3Position::Grid(2, 3), 1, 2);
    assert_eq!(v.get_raw_pos().unwrap(), LPM3Position::Grid(2, 3).to_raw().unwrap());
    assert!(LPM3Visual::Off(LPM3Position::Raw(0)).get_raw_pos().is_err());
    let w = LCXL2Visual::Static(LCXL2Position::Slider(2), 1, 1);
    assert_eq!(w.get_raw_pos().unwrap(), 49);
}
