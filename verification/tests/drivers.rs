//! The driver state machines: connect frames, diffing, absorption,
//! coalescing, and the physical-state cache.

use tin_drivers_midi::devices::launch_control_xl_mk2::driver::LCXL2Driver;
use tin_drivers_midi::devices::launch_control_xl_mk2::LCXL2InputMessage;
use tin_drivers_midi::devices::launch_control_xl_mk2::LCXL2Position;
use tin_drivers_midi::devices::launch_control_xl_mk2::LCXL2Visual;
use tin_drivers_midi::devices::launchpad_mini_mk3::driver::LPM3Driver;
use tin_drivers_midi::devices::launchpad_mini_mk3::input::LPM3InputMessage;
use tin_drivers_midi::devices::launchpad_mini_mk3::visual::LPM3Visual;
use tin_drivers_midi::devices::launchpad_mini_mk3::LPM3Position;
use tin_drivers_midi::MidiDriver;
use tin_drivers_midi::MidiDriverError;
use tin_drivers_midi::MidiPhysicalPosition;
use tin_drivers_midi::MidiPhysicalState;

fn lpm3_valid_addresses() -> Vec<u8> {
    (11u8..=99).filter(|a| a % 10 != 0).collect()
}

#[test]
fn lpm3_connect_transmits_daw_off_then_full_clear() {
    let (_driver, frames) = LPM3Driver::connect();
    assert_eq!(frames.len(), 2);
    assert_eq!(frames[0], vec![240u8, 0, 32, 41, 2, 13, 16, 0, 247]);

    let mut expected = vec![240u8, 0, 32, 41, 2, 13, 3];
    for a in lpm3_valid_addresses() {
        expected.extend([0, a, 0]);
    }
    expected.push(247);
    assert_eq!(frames[1], expected);
}

#[test]
fn lcxl2_connect_transmits_full_clear() {
    let (_driver, frames) = LCXL2Driver::connect();
    assert_eq!(frames.len(), 1);

    let mut expected = vec![240u8, 0, 32, 41, 2, 17, 120, 0];
    for a in 0u8..48 {
        expected.extend([a, 12]);
    }
    expected.push(247);
    assert_eq!(frames[0], expected);
}

#[test]
fn connect_then_read_is_quiet_and_states_default() {
    let (mut lcxl2, _) = LCXL2Driver::connect();
    assert!(lcxl2.read(Vec::new()).is_empty());
    for a in 0u8..=55 {
        let state = lcxl2.get_position_state(LCXL2Position::Raw(a)).unwrap();
        if LCXL2Position::is_analog_raw(&a) {
            assert!(matches!(state, MidiPhysicalState::Analog8(0)), "address {}", a);
        } else {
            assert!(matches!(state, MidiPhysicalState::Binary(false)), "address {}", a);
        }
    }

    let (mut lpm3, _) = LPM3Driver::connect();
    assert!(lpm3.read(Vec::new()).is_empty());
    for a in lpm3_valid_addresses() {
        let state = lpm3.get_position_state(LPM3Position::Raw(a)).unwrap();
        assert!(matches!(state, MidiPhysicalState::Binary(false)), "address {}", a);
    }
}

#[test]
fn get_position_state_rejects_unknown_addresses() {
    let (lcxl2, _) = LCXL2Driver::connect();
    assert!(matches!(
        lcxl2.get_position_state(LCXL2Position::Raw(56)),
        Err(MidiDriverError::InvalidPosition(_, _))
    ));
    let (lpm3, _) = LPM3Driver::connect();
    assert!(matches!(
        lpm3.get_position_state(LPM3Position::Raw(20)),
        Err(MidiDriverError::InvalidPosition(_, _))
    ));
}

#[test]
fn press_then_release_updates_position_state() {
    let (mut d, _) = LCXL2Driver::connect();

    let events = d.read(vec![LCXL2InputMessage::KeyPressed(LCXL2Position::Raw(30))]);
    assert_eq!(events.len(), 1);
    assert!(matches!(
        d.get_position_state(LCXL2Position::Raw(30)).unwrap(),
        MidiPhysicalState::Binary(true)
    ));

    let events = d.read(vec![LCXL2InputMessage::KeyReleased(LCXL2Position::Raw(30))]);
    assert_eq!(events.len(), 1);
    assert!(matches!(
        d.get_position_state(LCXL2Position::Raw(30)).unwrap(),
        MidiPhysicalState::Binary(false)
    ));
}

#[test]
fn lpm3_press_updates_position_state() {
    let (mut d, _) = LPM3Driver::connect();
    let events = d.read(vec![LPM3InputMessage::KeyPressed(LPM3Position::Grid(1, 0))]);
    assert_eq!(events.len(), 1);
    assert!(matches!(
        d.get_position_state(LPM3Position::Raw(91)).unwrap(),
        MidiPhysicalState::Binary(true)
    ));
}

#[test]
fn rapid_analog_frames_coalesce_to_last_value() {
    let (mut d, _) = LCXL2Driver::connect();
    let events = d.read(vec![
        LCXL2InputMessage::Analog(LCXL2Position::Raw(5), 1),
        LCXL2InputMessage::Analog(LCXL2Position::Raw(5), 2),
        LCXL2InputMessage::KeyPressed(LCXL2Position::Raw(30)),
        LCXL2InputMessage::Analog(LCXL2Position::Raw(5), 3),
        LCXL2InputMessage::Analog(LCXL2Position::Raw(5), 4),
        LCXL2InputMessage::Analog(LCXL2Position::Raw(5), 5),
    ]);
    assert_eq!(events.len(), 2);
    assert!(matches!(&events[0], LCXL2InputMessage::KeyPressed(p) if p.to_raw().unwrap() == 30));
    assert!(matches!(&events[1], LCXL2InputMessage::Analog(p, 5) if p.to_raw().unwrap() == 5));
    assert!(matches!(
        d.get_position_state(LCXL2Position::Raw(5)).unwrap(),
        MidiPhysicalState::Analog8(5)
    ));
}

#[test]
fn coalesced_analog_events_come_in_address_order() {
    let (mut d, _) = LCXL2Driver::connect();
    let events = d.read(vec![
        LCXL2InputMessage::Analog(LCXL2Position::Raw(7), 9),
        LCXL2InputMessage::Analog(LCXL2Position::Raw(3), 4),
    ]);
    assert_eq!(events.len(), 2);
    assert!(matches!(&events[0], LCXL2InputMessage::Analog(p, 4) if p.to_raw().unwrap() == 3));
    assert!(matches!(&events[1], LCXL2InputMessage::Analog(p, 9) if p.to_raw().unwrap() == 7));
}

#[test]
fn absorbed_visual_transmits_nothing() {
    // After connect the whole pad is effectively off: re-adding an off
    // visual must not reach the wire.
    let (mut lpm3, _) = LPM3Driver::connect();
    lpm3.add(LPM3Visual::Off(LPM3Position::Raw(11))).unwrap();
    let frame = lpm3.push().unwrap().unwrap();
    assert_eq!(frame, vec![240u8, 0, 32, 41, 2, 13, 3, 247]);

    // The knob/mixer device skips the transmission entirely.
    let (mut lcxl2, _) = LCXL2Driver::connect();
    lcxl2.add(LCXL2Visual::Off(LCXL2Position::Raw(0))).unwrap();
    assert_eq!(lcxl2.push().unwrap(), None);
}

#[test]
fn changed_visual_transmits_exactly_once_and_sticks() {
    let (mut d, _) = LCXL2Driver::connect();
    d.add(LCXL2Visual::Static(LCXL2Position::Raw(0), 3, 2)).unwrap();
    let frame = d.push().unwrap().unwrap();
    assert_eq!(frame, vec![240u8, 0, 32, 41, 2, 17, 120, 0, 0, 47, 247]);

    // The same visual again is now absorbed by the effective state.
    d.add(LCXL2Visual::Static(LCXL2Position::Knob(1, 1), 3, 2)).unwrap();
    assert_eq!(d.push().unwrap(), None);

    // A different visual at the same address is transmitted again.
    d.add(LCXL2Visual::Static(LCXL2Position::Raw(0), 1, 0)).unwrap();
    let frame = d.push().unwrap().unwrap();
    assert_eq!(frame, vec![240u8, 0, 32, 41, 2, 17, 120, 0, 0, 13, 247]);
}

#[test]
fn add_overwrites_queued_entry_for_same_address() {
    let (mut d, _) = LCXL2Driver::connect();
    d.add(LCXL2Visual::Static(LCXL2Position::Raw(0), 1, 1)).unwrap();
    d.add(LCXL2Visual::Static(LCXL2Position::Knob(1, 1), 2, 2)).unwrap();
    let frame = d.push().unwrap().unwrap();
    // One payload only, carrying the later visual: 12 + 2 + 16 * 2 == 46.
    assert_eq!(frame, vec![240u8, 0, 32, 41, 2, 17, 120, 0, 0, 46, 247]);
}

#[test]
fn pop_discards_queued_visuals() {
    let (mut d, _) = LCXL2Driver::connect();
    d.add(LCXL2Visual::Static(LCXL2Position::Raw(0), 3, 0)).unwrap();
    d.pop();
    assert_eq!(d.push().unwrap(), None);
}

#[test]
fn add_rejects_invalid_positions() {
    let (mut lpm3, _) = LPM3Driver::connect();
    assert!(matches!(
        lpm3.add(LPM3Visual::Off(LPM3Position::Raw(100))),
        Err(MidiDriverError::InvalidPosition(_, _))
    ));
    let (mut lcxl2, _) = LCXL2Driver::connect();
    assert!(matches!(
        lcxl2.add(LCXL2Visual::Off(LCXL2Position::Raw(56))),
        Err(MidiDriverError::InvalidPosition(_, _))
    ));
}

#[test]
fn push_fails_whole_batch_on_bad_channel_and_keeps_state() {
    let (mut d, _) = LCXL2Driver::connect();
    d.add(LCXL2Visual::Static(LCXL2Position::Raw(0), 4, 0)).unwrap();
    assert!(matches!(d.push(), Err(MidiDriverError::InvalidVisual(_, _))));
    // The failed push left the queue untouched: pushing again fails the
    // same way. Only discarding the batch clears it.
    assert!(matches!(d.push(), Err(MidiDriverError::InvalidVisual(_, _))));
    d.pop();
    assert_eq!(d.push().unwrap(), None);
}

#[test]
fn close_leaves_device_off() {
    // Right after connect everything is already off, so closing the
    // knob/mixer device has nothing to transmit, while the pad still
    // frames its (empty) batch.
    let (mut lcxl2, _) = LCXL2Driver::connect();
    assert_eq!(lcxl2.close().unwrap(), None);

    let (mut lpm3, _) = LPM3Driver::connect();
    let frame = lpm3.close().unwrap().unwrap();
    assert_eq!(frame, vec![240u8, 0, 32, 41, 2, 13, 3, 247]);

    // After a visible change, closing the knob/mixer device transmits the
    // off visual for that address (and nothing else was ever effective).
    let (mut d, _) = LCXL2Driver::connect();
    d.add(LCXL2Visual::Static(LCXL2Position::Raw(3), 2, 1)).unwrap();
    d.push().unwrap();
    let frame = d.close().unwrap().unwrap();
    assert_eq!(frame, vec![240u8, 0, 32, 41, 2, 17, 120, 0, 3, 12, 247]);
}

#[test]
fn clear_then_push_covers_every_valid_address() {
    // A device whose effective state is not off anywhere: paint one LED,
    // then clear. The clear batch must cover exactly the addressable set.
    let (mut d, _) = LCXL2Driver::connect();
    d.add(LCXL2Visual::Static(LCXL2Position::Raw(0), 1, 1)).unwrap();
    d.push().unwrap();
    d.clear();
    let frame = d.push().unwrap().unwrap();
    // Only address 0 differs from its queued off visual; everything else
    // is absorbed.
    assert_eq!(frame, vec![240u8, 0, 32, 41, 2, 17, 120, 0, 0, 12, 247]);
}
