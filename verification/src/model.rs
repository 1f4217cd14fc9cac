//! Runtime model of the running set.

use vstd::prelude::*;

use crate::data::SongSet;
use std::collections::HashMap;

verus! {

/// The state of the whole application: the loaded set and the two song
/// slots that can be live at once.
pub struct TinModel {
    pub set: SongSet,
    pub song_focused: u32,
    pub songs: [Option<TinSong>; 2],
}

impl TinModel {
    /// A fresh model over a loaded set: focus on the first slot, no song
    /// loaded in either.
    pub fn new(set: SongSet) -> (r: Self)
        ensures
            r.set == set,
            r.song_focused == 0,
            r.songs@.len() == 2,
            r.songs@[0] is None,
            r.songs@[1] is None,
    {
        Self { set, song_focused: 0, songs: [None, None] }
    }
}

/// The live state of one song.
pub struct TinSong {
    pub matrix: TinMatrix,
}

/// The live state of a song's matrix: what each track is doing.
pub struct TinMatrix {
    pub tracks: HashMap<i64, TinMatrixAction>,
}

/// What one track of the matrix is doing.
pub enum TinMatrixAction {
    Playing(i64),
    Queue(i64),
    QueueTransition(i64, i64),
    Dequeue(i64),
}

} // verus!
