//! Settings app: toggles and levels.

use vstd::prelude::*;

verus! {

/// The settings: four switches and two levels from 0 to 100.
#[derive(Clone, Copy, PartialEq, Eq, Structural, Debug)]
pub struct SettingsState {
    pub dark_mode: bool,
    pub wifi: bool,
    pub bluetooth: bool,
    pub do_not_disturb: bool,
    pub volume: u32,
    pub brightness: u32,
}

/// `v` lowered by 10, not below 0.
pub open spec fn level_down(v: u32) -> u32 {
    if v >= 10 {
        (v - 10) as u32
    } else {
        0
    }
}

/// `v` raised by 10, not above 100.
pub open spec fn level_up(v: u32) -> u32 {
    if v + 10 <= 100 {
        (v + 10) as u32
    } else {
        100
    }
}

/// The settings after key `code` and whether the key was used: `1`..`4` flip the switches,
/// `-`/`=` lower/raise the volume, `[`/`]` lower/raise the brightness.
pub open spec fn settings_key(s: SettingsState, code: u16) -> (SettingsState, bool) {
    if code == 2 {
        (SettingsState { dark_mode: !s.dark_mode, ..s }, true)
    } else if code == 3 {
        (SettingsState { wifi: !s.wifi, ..s }, true)
    } else if code == 4 {
        (SettingsState { bluetooth: !s.bluetooth, ..s }, true)
    } else if code == 5 {
        (SettingsState { do_not_disturb: !s.do_not_disturb, ..s }, true)
    } else if code == 12 {
        (SettingsState { volume: level_down(s.volume), ..s }, true)
    } else if code == 13 {
        (SettingsState { volume: level_up(s.volume), ..s }, true)
    } else if code == 26 {
        (SettingsState { brightness: level_down(s.brightness), ..s }, true)
    } else if code == 27 {
        (SettingsState { brightness: level_up(s.brightness), ..s }, true)
    } else {
        (s, false)
    }
}

impl SettingsState {
    /// Dark mode and Wi-Fi on, the rest off, volume 70, brightness 80.
    pub fn new() -> (s: Self)
        ensures
            s == (SettingsState {
                dark_mode: true,
                wifi: true,
                bluetooth: false,
                do_not_disturb: false,
                volume: 70,
                brightness: 80,
            }),
    {
        Self {
            dark_mode: true,
            wifi: true,
            bluetooth: false,
            do_not_disturb: false,
            volume: 70,
            brightness: 80,
        }
    }

    /// Handles key `code`; returns whether the key was used.
    pub fn handle_key(&mut self, code: u16) -> (used: bool)
        requires
            code == 13 ==> old(self).volume + 10 <= u32::MAX,
            code == 27 ==> old(self).brightness + 10 <= u32::MAX,
        ensures
            (*final(self), used) == settings_key(*old(self), code),
    {
        match code {
            2 => {
                self.dark_mode = !self.dark_mode;
                true
            },
            3 => {
                self.wifi = !self.wifi;
                true
            },
            4 => {
                self.bluetooth = !self.bluetooth;
                true
            },
            5 => {
                self.do_not_disturb = !self.do_not_disturb;
                true
            },
            12 => {
                self.volume = self.volume.saturating_sub(10);
                true
            },
            13 => {
                let v = self.volume + 10;
                self.volume = if v < 100 {
                    v
                } else {
                    100
                };
                true
            },
            26 => {
                self.brightness = self.brightness.saturating_sub(10);
                true
            },
            27 => {
                let v = self.brightness + 10;
                self.brightness = if v < 100 {
                    v
                } else {
                    100
                };
                true
            },
            _ => false,
        }
    }
}

/// Levels from 0 to 100 stay from 0 to 100 whatever key is pressed, and each switch key
/// pressed twice leaves the settings as they were.
pub proof fn law_settings_levels_stay(s: SettingsState, code: u16)
    requires
        s.volume <= 100,
        s.brightness <= 100,
    ensures
        settings_key(s, code).0.volume <= 100,
        settings_key(s, code).0.brightness <= 100,
        2 <= code <= 5 ==> settings_key(settings_key(s, code).0, code).0 == s,
{
}

} // verus!
