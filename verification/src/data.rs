//! Set and song metadata: what a loaded set folder describes.
//!
//! These are plain data carriers; reading them from disk and decoding the
//! metadata files happens outside this crate, which only ever sees the
//! finished values.

use vstd::prelude::*;

use std::collections::HashMap;
use std::collections::HashSet;

verus! {

/// The tracks one matrix cell acts on.
#[derive(Debug)]
pub struct SongTrack {
    pub tracks: HashSet<u8>,
}

/// What one knob controls: an effect parameter of a track, and the colour
/// its LED shows.
#[derive(Debug)]
pub struct SongKnob {
    pub track: u8,
    pub effect: u8,
    pub parameter: u8,
    pub color: (u8, u8),
}

/// One matrix cell: its colour and the action it triggers.
#[derive(Debug)]
pub struct SongMatrix {
    pub color: (u8, u8, u8),
    pub action: SongMatrixAction,
}

/// The action a matrix cell triggers.
#[derive(Debug)]
pub enum SongMatrixAction {
    Pattern(SongMatrixActionPattern),
    Sound(SongMatrixActionSound),
}

/// Queue a pattern on a set of tracks.
#[derive(Debug)]
pub struct SongMatrixActionPattern {
    pub tracks: HashSet<u8>,
    pub pattern: u8,
    pub length: Option<u8>,
}

/// Fire a single sound.
#[derive(Debug)]
pub struct SongMatrixActionSound {
    pub channel: u8,
    pub note: u8,
    pub reactive: bool,
}

/// One song of a set.
#[derive(Debug)]
pub struct Song {
    pub name: String,
    pub authors: String,
    pub path: String,
    pub order: i64,
    pub tracks: HashMap<i64, SongTrack>,
    pub knobs: HashMap<i64, HashMap<i64, SongKnob>>,
    pub matrix: HashMap<i64, HashMap<i64, SongMatrix>>,
}

/// A whole set: its metadata and its songs, keyed by file name.
#[derive(Debug)]
pub struct SongSet {
    pub name: String,
    pub authors: String,
    pub songs: HashMap<String, Song>,
}

} // verus!
