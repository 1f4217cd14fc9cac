//! Position mapping: the per-device coordinate formulas, their validation,
//! and raw-address equality.

use std::collections::HashSet;

use tin_drivers_midi::devices::launch_control_xl_mk2::LCXL2Position;
use tin_drivers_midi::devices::launchpad_mini_mk3::LPM3Position;
use tin_drivers_midi::MidiDriverError;
use tin_drivers_midi::MidiPhysicalPosition;

#[test]
fn lpm3_grid_formula() {
    assert_eq!(LPM3Position::Grid(1, 0).to_raw().unwrap(), 91);
    assert_eq!(LPM3Position::Grid(9, 0).to_raw().unwrap(), 99);
    assert_eq!(LPM3Position::Grid(1, 8).to_raw().unwrap(), 11);
    assert_eq!(LPM3Position::Grid(9, 8).to_raw().unwrap(), 19);
    assert_eq!(LPM3Position::Grid(5, 4).to_raw().unwrap(), 55);
}

#[test]
fn lpm3_named_buttons() {
    assert_eq!(LPM3Position::Up.to_raw().unwrap(), 91);
    assert_eq!(LPM3Position::Down.to_raw().unwrap(), 92);
    assert_eq!(LPM3Position::Left.to_raw().unwrap(), 93);
    assert_eq!(LPM3Position::Right.to_raw().unwrap(), 94);
    assert_eq!(LPM3Position::Session.to_raw().unwrap(), 95);
    assert_eq!(LPM3Position::Drums.to_raw().unwrap(), 96);
    assert_eq!(LPM3Position::Keys.to_raw().unwrap(), 97);
    assert_eq!(LPM3Position::User.to_raw().unwrap(), 98);
    assert_eq!(LPM3Position::Logo.to_raw().unwrap(), 99);
    assert_eq!(LPM3Position::SSM.to_raw().unwrap(), 19);
}

#[test]
fn lpm3_raw_validation() {
    assert_eq!(LPM3Position::Raw(11).to_raw().unwrap(), 11);
    assert_eq!(LPM3Position::Raw(99).to_raw().unwrap(), 99);
    for bad in [0u8, 10, 20, 90, 100, 110, 255] {
        match LPM3Position::Raw(bad).to_raw() {
            Err(MidiDriverError::InvalidPosition(device, _)) => {
                assert_eq!(device, "Launchpad Mini MK3");
            }
            other => panic!("expected InvalidPosition for {}, got {:?}", bad, other),
        }
    }
}

#[test]
fn lpm3_grid_validation() {
    for (x, y) in [(0u8, 0u8), (10, 0), (1, 9), (0, 9), (255, 255)] {
        match LPM3Position::Grid(x, y).to_raw() {
            Err(MidiDriverError::InvalidPosition(_, _)) => {}
            other => panic!("expected InvalidPosition for ({}, {}), got {:?}", x, y, other),
        }
    }
}

#[test]
fn lpm3_grid_injective() {
    let mut seen = HashSet::new();
    for x in 1u8..=9 {
        for y in 0u8..=8 {
            let raw = LPM3Position::Grid(x, y).to_raw().unwrap();
            assert!(seen.insert(raw), "grid cell ({}, {}) aliases raw {}", x, y, raw);
        }
    }
    assert_eq!(seen.len(), 81);
}

#[test]
fn lpm3_equality_by_raw() {
    assert_eq!(LPM3Position::Grid(1, 0), LPM3Position::Raw(91));
    assert_eq!(LPM3Position::Up, LPM3Position::Raw(91));
    assert_eq!(LPM3Position::SSM, LPM3Position::Grid(9, 8));
    assert_ne!(LPM3Position::Grid(1, 0), LPM3Position::Raw(92));
}

#[test]
fn lcxl2_coordinate_formulas() {
    assert_eq!(LCXL2Position::Knob(1, 1).to_raw().unwrap(), 0);
    assert_eq!(LCXL2Position::Knob(2, 1).to_raw().unwrap(), 1);
    assert_eq!(LCXL2Position::Knob(1, 2).to_raw().unwrap(), 8);
    assert_eq!(LCXL2Position::Knob(8, 3).to_raw().unwrap(), 23);
    assert_eq!(LCXL2Position::Slider(1).to_raw().unwrap(), 48);
    assert_eq!(LCXL2Position::Slider(8).to_raw().unwrap(), 55);
    assert_eq!(LCXL2Position::Bottom(1, 1).to_raw().unwrap(), 24);
    assert_eq!(LCXL2Position::Bottom(8, 1).to_raw().unwrap(), 31);
    assert_eq!(LCXL2Position::Bottom(1, 2).to_raw().unwrap(), 32);
    assert_eq!(LCXL2Position::Bottom(8, 2).to_raw().unwrap(), 39);
    assert_eq!(LCXL2Position::Device.to_raw().unwrap(), 40);
    assert_eq!(LCXL2Position::Mute.to_raw().unwrap(), 41);
    assert_eq!(LCXL2Position::Solo.to_raw().unwrap(), 42);
    assert_eq!(LCXL2Position::Record.to_raw().unwrap(), 43);
    assert_eq!(LCXL2Position::Up.to_raw().unwrap(), 44);
    assert_eq!(LCXL2Position::Down.to_raw().unwrap(), 45);
    assert_eq!(LCXL2Position::Left.to_raw().unwrap(), 46);
    assert_eq!(LCXL2Position::Right.to_raw().unwrap(), 47);
}

#[test]
fn lcxl2_validation() {
    assert_eq!(LCXL2Position::Raw(0).to_raw().unwrap(), 0);
    assert_eq!(LCXL2Position::Raw(55).to_raw().unwrap(), 55);
    for p in [
        LCXL2Position::Raw(56),
        LCXL2Position::Raw(255),
        LCXL2Position::Knob(0, 1),
        LCXL2Position::Knob(9, 1),
        LCXL2Position::Knob(1, 0),
        LCXL2Position::Knob(1, 4),
        LCXL2Position::Slider(0),
        LCXL2Position::Slider(9),
        LCXL2Position::Bottom(0, 1),
        LCXL2Position::Bottom(9, 1),
        LCXL2Position::Bottom(1, 0),
        LCXL2Position::Bottom(1, 3),
    ] {
        match p.to_raw() {
            Err(MidiDriverError::InvalidPosition(device, _)) => {
                assert_eq!(device, "Launch Control XL MK2");
            }
            other => panic!("expected InvalidPosition for {:?}, got {:?}", p, other),
        }
    }
}

#[test]
fn lcxl2_coordinates_injective() {
    let mut positions = Vec::new();
    for x in 1u8..=8 {
        for y in 1u8..=3 {
            positions.push(LCXL2Position::Knob(x, y));
        }
    }
    for n in 1u8..=8 {
        positions.push(LCXL2Position::Slider(n));
    }
    for x in 1u8..=8 {
        for y in 1u8..=2 {
            positions.push(LCXL2Position::Bottom(x, y));
        }
    }
    positions.extend([
        LCXL2Position::Up,
        LCXL2Position::Down,
        LCXL2Position::Left,
        LCXL2Position::Right,
        LCXL2Position::Device,
        LCXL2Position::Mute,
        LCXL2Position::Solo,
        LCXL2Position::Record,
    ]);
    let mut seen = HashSet::new();
    for p in &positions {
        let raw = p.to_raw().unwrap();
        assert!(seen.insert(raw), "position {:?} aliases raw {}", p, raw);
    }
    assert_eq!(seen.len(), 56);
}

#[test]
fn lcxl2_equality_by_raw() {
    assert_eq!(LCXL2Position::Knob(1, 1), LCXL2Position::Raw(0));
    assert_eq!(LCXL2Position::Up, LCXL2Position::Raw(44));
    assert_eq!(LCXL2Position::Slider(3), LCXL2Position::Raw(50));
    assert_ne!(LCXL2Position::Knob(1, 1), LCXL2Position::Knob(2, 1));
}

#[test]
fn lcxl2_analog_classification() {
    for a in 0u8..=23 {
        assert!(LCXL2Position::is_analog_raw(&a));
    }
    for a in 24u8..=47 {
        assert!(!LCXL2Position::is_analog_raw(&a));
    }
    for a in 48u8..=55 {
        assert!(LCXL2Position::is_analog_raw(&a));
    }
    assert!(LCXL2Position::Knob(4, 2).is_analog().unwrap());
    assert!(LCXL2Position::Slider(1).is_analog().unwrap());
    assert!(!LCXL2Position::Mute.is_analog().unwrap());
    assert!(!LCXL2Position::Bottom(3, 1).is_analog().unwrap());
    assert!(matches!(
        LCXL2Position::Raw(99).is_analog(),
        Err(MidiDriverError::InvalidPosition(_, _))
    ));
}
