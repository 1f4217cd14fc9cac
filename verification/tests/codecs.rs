//! Output encoding: the bulk colour-update frames, byte for byte, and the
//! validation of colour channels.

use tin_drivers_midi::devices::launch_control_xl_mk2::LCXL2OutputMessage;
use tin_drivers_midi::devices::launch_control_xl_mk2::LCXL2Position;
use tin_drivers_midi::devices::launch_control_xl_mk2::LCXL2Visual;
use tin_drivers_midi::devices::launchpad_mini_mk3::output::LPM3OutputMessage;
use tin_drivers_midi::devices::launchpad_mini_mk3::visual::LPM3Visual;
use tin_drivers_midi::devices::launchpad_mini_mk3::LPM3Position;
use tin_drivers_midi::MidiDriverError;
use tin_drivers_midi::MidiOutputMessage;

#[test]
fn lpm3_raw_passthrough() {
    let bytes = vec![240u8, 1, 2, 3, 247];
    assert_eq!(LPM3OutputMessage::Raw(bytes.clone()).to_raw().unwrap(), bytes);
}

#[test]
fn lpm3_colour_frame() {
    let msg = LPM3OutputMessage::SendColors(vec![
        LPM3Visual::Off(LPM3Position::Raw(11)),
        LPM3Visual::Static(LPM3Position::Raw(12), 5),
        LPM3Visual::Flashing(LPM3Position::Raw(13), 1, 2),
        LPM3Visual::Pulsing(LPM3Position::Raw(14), 7),
        LPM3Visual::RGB(LPM3Position::Grid(1, 0), 10, 20, 30),
    ]);
    let expected = vec![
        240u8, 0, 32, 41, 2, 13, 3, // header
        0, 11, 0, // off
        0, 12, 5, // static
        1, 13, 1, 2, // flashing
        2, 14, 7, // pulsing
        3, 91, 10, 20, 30, // rgb, position resolved from the grid form
        247,
    ];
    assert_eq!(msg.to_raw().unwrap(), expected);
}

#[test]
fn lpm3_empty_batch_still_frames() {
    let msg = LPM3OutputMessage::SendColors(vec![]);
    assert_eq!(msg.to_raw().unwrap(), vec![240u8, 0, 32, 41, 2, 13, 3, 247]);
}

#[test]
fn lpm3_invalid_position_rejected() {
    let msg = LPM3OutputMessage::SendColors(vec![LPM3Visual::Off(LPM3Position::Raw(100))]);
    assert!(matches!(
        msg.to_raw(),
        Err(MidiDriverError::InvalidPosition(_, _))
    ));
}

#[test]
fn lcxl2_raw_passthrough() {
    let bytes = vec![240u8, 9, 9, 247];
    assert_eq!(LCXL2OutputMessage::Raw(bytes.clone()).to_raw().unwrap(), bytes);
}

#[test]
fn lcxl2_colour_frame() {
    let msg = LCXL2OutputMessage::SendColors(vec![
        LCXL2Visual::Off(LCXL2Position::Raw(0)),
        LCXL2Visual::Static(LCXL2Position::Raw(1), 3, 2),
        LCXL2Visual::Static(LCXL2Position::Bottom(1, 1), 0, 0),
    ]);
    let expected = vec![
        240u8, 0, 32, 41, 2, 17, 120, 0, // header
        0, 12, // off
        1, 47, // 12 + 3 + 16 * 2
        24, 12, // 12 + 0 + 0, position resolved from the bottom form
        247,
    ];
    assert_eq!(msg.to_raw().unwrap(), expected);
}

#[test]
fn lcxl2_red_channel_over_three_rejected() {
    let msg = LCXL2OutputMessage::SendColors(vec![LCXL2Visual::Static(
        LCXL2Position::Raw(0),
        4,
        0,
    )]);
    match msg.to_raw() {
        Err(MidiDriverError::InvalidVisual(device, reason)) => {
            assert_eq!(device, "Launch Control XL MK2");
            assert_eq!(reason, "Invalid red value: 4");
        }
        other => panic!("expected InvalidVisual, got {:?}", other),
    }
}

#[test]
fn lcxl2_green_channel_over_three_rejected() {
    let msg = LCXL2OutputMessage::SendColors(vec![LCXL2Visual::Static(
        LCXL2Position::Raw(0),
        0,
        255,
    )]);
    match msg.to_raw() {
        Err(MidiDriverError::InvalidVisual(_, reason)) => {
            assert_eq!(reason, "Invalid green value: 255");
        }
        other => panic!("expected InvalidVisual, got {:?}", other),
    }
}

#[test]
fn lcxl2_channel_fault_reported_before_position_fault() {
    let msg = LCXL2OutputMessage::SendColors(vec![LCXL2Visual::Static(
        LCXL2Position::Raw(200),
        4,
        0,
    )]);
    assert!(matches!(
        msg.to_raw(),
        Err(MidiDriverError::InvalidVisual(_, _))
    ));
}

#[test]
fn lcxl2_invalid_position_rejected() {
    let msg = LCXL2OutputMessage::SendColors(vec![LCXL2Visual::Off(LCXL2Position::Raw(56))]);
    assert!(matches!(
        msg.to_raw(),
        Err(MidiDriverError::InvalidPosition(_, _))
    ));
}
