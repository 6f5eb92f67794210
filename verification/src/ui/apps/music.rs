//! Music app: a player over a fixed track list.

use vstd::prelude::*;

verus! {

/// Number of tracks in the list.
pub const TRACK_COUNT: usize = 4;

/// Title, artist and length in seconds of track `i`.
pub open spec fn track_spec(i: int) -> (Seq<char>, Seq<char>, u32) {
    if i == 0 {
        ("ZaminOS Boot Theme"@, "ZaminOS"@, 224)
    } else if i == 1 {
        ("Terminal Lullaby"@, "kernel_main"@, 187)
    } else if i == 2 {
        ("aarch64 Anthem"@, "ARM Ltd."@, 302)
    } else {
        ("Mobile Convergence"@, "Faza 7"@, 256)
    }
}

/// The track list: title, artist, length in seconds.
pub fn tracks() -> (ts: [(&'static str, &'static str, u32); 4])
    ensures
        forall|i: int|
            0 <= i < 4 ==> (ts@[i].0@, ts@[i].1@, ts@[i].2) == #[trigger] track_spec(i),
{
    [
        ("ZaminOS Boot Theme", "ZaminOS", 224),
        ("Terminal Lullaby", "kernel_main", 187),
        ("aarch64 Anthem", "ARM Ltd.", 302),
        ("Mobile Convergence", "Faza 7", 256),
    ]
}

/// The player: whether it plays, which track, and how far into it (percent).
#[derive(Clone, Copy, PartialEq, Eq, Structural, Debug)]
pub struct MusicState {
    pub playing: bool,
    pub track: usize,
    pub progress: u32,
}

/// The player after key `code` and whether the key was used: space toggles playing,
/// `k` goes to the next track and `j` to the previous one (stopping at the ends), both
/// restarting the track.
pub open spec fn music_key(m: MusicState, code: u16) -> (MusicState, bool) {
    if code == 57 {
        (MusicState { playing: !m.playing, ..m }, true)
    } else if code == 37 {
        (
            MusicState {
                track: if m.track + 1 < TRACK_COUNT { (m.track + 1) as usize } else { m.track },
                progress: 0,
                ..m
            },
            true,
        )
    } else if code == 36 {
        (
            MusicState {
                track: if m.track > 0 { (m.track - 1) as usize } else { m.track },
                progress: 0,
                ..m
            },
            true,
        )
    } else {
        (m, false)
    }
}

impl MusicState {
    /// Playing the first track, 27% in.
    pub fn new() -> (m: Self)
        ensures
            m == (MusicState { playing: true, track: 0, progress: 27 }),
    {
        Self { playing: true, track: 0, progress: 27 }
    }

    /// Handles key `code`; returns whether the key was used.
    pub fn handle_key(&mut self, code: u16) -> (used: bool)
        requires
            code == 37 ==> old(self).track < usize::MAX,
        ensures
            (*final(self), used) == music_key(*old(self), code),
    {
        if code == 57 {
            self.playing = !self.playing;
            return true;
        }
        if code == 37 {
            if self.track + 1 < TRACK_COUNT {
                self.track += 1;
            }
            self.progress = 0;
            return true;
        }
        if code == 36 {
            if self.track > 0 {
                self.track -= 1;
            }
            self.progress = 0;
            return true;
        }
        false
    }
}

/// A track inside the list stays inside it whatever key is pressed, and pressing space
/// twice leaves the player as it was.
pub proof fn law_music_track_stays(m: MusicState, code: u16)
    requires
        m.track < TRACK_COUNT,
    ensures
        music_key(m, code).0.track < TRACK_COUNT,
        music_key(music_key(m, 57).0, 57).0 == m,
{
}

} // verus!
