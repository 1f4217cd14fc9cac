//! The decimal formatter behind error descriptions, and the data model.

use std::collections::HashMap;

use tin_drivers_midi::data::SongSet;
use tin_drivers_midi::model::TinModel;
use tin_drivers_midi::text::u8_decimal;
use tin_drivers_midi::views::lpm3_matrix::ViewLPM3Matrix;
use tin_drivers_midi::devices::launchpad_mini_mk3::driver::LPM3Driver;
use tin_drivers_midi::MidiDriver;

#[test]
fn decimal_rendering() {
    assert_eq!(u8_decimal(0), "0");
    assert_eq!(u8_decimal(7), "7");
    assert_eq!(u8_decimal(10), "10");
    assert_eq!(u8_decimal(55), "55");
    assert_eq!(u8_decimal(100), "100");
    assert_eq!(u8_decimal(255), "255");
}

fn empty_set() -> SongSet {
    SongSet { name: String::new(), authors: String::new(), songs: HashMap::new() }
}

#[test]
fn fresh_model_has_no_songs() {
    let model = TinModel::new(empty_set());
    assert_eq!(model.song_focused, 0);
    assert!(model.songs[0].is_none());
    assert!(model.songs[1].is_none());
}

#[test]
fn idle_view_changes_nothing() {
    let mut model = TinModel::new(empty_set());
    let (mut driver, _) = LPM3Driver::connect();
    let mut view = ViewLPM3Matrix::new();
    view.update(&mut model, &mut driver).unwrap();
    view.draw(&model, &mut driver).unwrap();
    // The view has no drawing rules yet: a push right after it must
    // transmit nothing beyond the empty frame.
    let frame = driver.push().unwrap().unwrap();
    assert_eq!(frame, vec![240u8, 0, 32, 41, 2, 13, 3, 247]);
}
