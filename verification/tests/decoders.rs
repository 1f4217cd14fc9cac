//! Input decoding: the 3-byte frame format and its noise handling.

use tin_drivers_midi::devices::launch_control_xl_mk2::LCXL2InputMessage;
use tin_drivers_midi::devices::launchpad_mini_mk3::input::LPM3InputMessage;
use tin_drivers_midi::MidiInputMessage;
use tin_drivers_midi::MidiPhysicalPosition;

#[test]
fn lpm3_decode_press_and_release() {
    match LPM3InputMessage::from_raw(&[144, 11, 127]) {
        Some(LPM3InputMessage::KeyPressed(p)) => assert_eq!(p.to_raw().unwrap(), 11),
        other => panic!("expected KeyPressed, got {:?}", other),
    }
    match LPM3InputMessage::from_raw(&[176, 91, 0]) {
        Some(LPM3InputMessage::KeyReleased(p)) => assert_eq!(p.to_raw().unwrap(), 91),
        other => panic!("expected KeyReleased, got {:?}", other),
    }
}

#[test]
fn lpm3_decode_drops_noise() {
    assert!(LPM3InputMessage::from_raw(&[145, 11, 127]).is_none());
    assert!(LPM3InputMessage::from_raw(&[144, 11]).is_none());
    assert!(LPM3InputMessage::from_raw(&[144, 11, 127, 0]).is_none());
    assert!(LPM3InputMessage::from_raw(&[]).is_none());
    assert!(LPM3InputMessage::from_raw(&[144, 10, 5]).is_none());
    assert!(LPM3InputMessage::from_raw(&[144, 100, 5]).is_none());
}

#[test]
fn lcxl2_decode_analog_and_binary() {
    match LCXL2InputMessage::from_raw(&[176, 0, 64]) {
        Some(LCXL2InputMessage::Analog(p, v)) => {
            assert_eq!(p.to_raw().unwrap(), 0);
            assert_eq!(v, 64);
        }
        other => panic!("expected Analog, got {:?}", other),
    }
    match LCXL2InputMessage::from_raw(&[144, 55, 3]) {
        Some(LCXL2InputMessage::Analog(p, v)) => {
            assert_eq!(p.to_raw().unwrap(), 55);
            assert_eq!(v, 3);
        }
        other => panic!("expected Analog, got {:?}", other),
    }
    match LCXL2InputMessage::from_raw(&[144, 24, 1]) {
        Some(LCXL2InputMessage::KeyPressed(p)) => assert_eq!(p.to_raw().unwrap(), 24),
        other => panic!("expected KeyPressed, got {:?}", other),
    }
    match LCXL2InputMessage::from_raw(&[176, 47, 0]) {
        Some(LCXL2InputMessage::KeyReleased(p)) => assert_eq!(p.to_raw().unwrap(), 47),
        other => panic!("expected KeyReleased, got {:?}", other),
    }
}

#[test]
fn lcxl2_decode_drops_noise() {
    assert!(LCXL2InputMessage::from_raw(&[200, 0, 0]).is_none());
    assert!(LCXL2InputMessage::from_raw(&[176, 56, 5]).is_none());
    assert!(LCXL2InputMessage::from_raw(&[176, 0]).is_none());
    assert!(LCXL2InputMessage::from_raw(&[176, 0, 0, 0]).is_none());
}
