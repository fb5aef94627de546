use vstd::prelude::*;

use crate::clock::duration_nanos;
use crate::clock::since_unix_epoch;
use crate::clock::system_now;

verus! {

/// How recording is triggered.
#[derive(Clone, Copy, Debug, PartialEq, Eq, Structural)]
pub enum HotkeyMode {
    DoubleTapSuper,
    DoubleTapCtrl,
    DoubleTapShift,
    KeyCombination,
}

impl Default for HotkeyMode {
    fn default() -> (m: Self)
        ensures
            m == HotkeyMode::KeyCombination,
    {
        HotkeyMode::KeyCombination
    }
}

/// The desktop platforms whose conventions the defaults follow.
#[derive(Clone, Copy, Debug, PartialEq, Eq, Structural)]
pub enum Platform {
    MacOs,
    Linux,
}

pub open spec fn default_hotkey_spec(platform: Platform) -> Seq<char> {
    match platform {
        Platform::MacOs => "Super+Shift+Space"@,
        Platform::Linux => "Ctrl+Shift+Space"@,
    }
}

/// The default key combination of a platform: macOS uses Cmd (Super), the others Ctrl.
pub fn default_hotkey(platform: Platform) -> (r: &'static str)
    ensures
        r@ == default_hotkey_spec(platform),
{
    match platform {
        Platform::MacOs => "Super+Shift+Space",
        Platform::Linux => "Ctrl+Shift+Space",
    }
}

/// The user's configuration.
#[derive(Debug)]
pub struct AppSettings {
    pub api_key: String,
    pub hotkey: String,
    pub hotkey_mode: HotkeyMode,
    pub language: String,
    pub microphone: String,
}

impl AppSettings {
    /// The settings a fresh installation starts with on `platform`.
    pub fn defaults_for(platform: Platform) -> (s: Self)
        ensures
            s.api_key@ == Seq::<char>::empty(),
            s.hotkey@ == default_hotkey_spec(platform),
            s.hotkey_mode == HotkeyMode::KeyCombination,
            s.language@ == "de"@,
            s.microphone@ == "default"@,
    {
        AppSettings {
            api_key: String::new(),
            hotkey: String::from_str(default_hotkey(platform)),
            hotkey_mode: HotkeyMode::KeyCombination,
            language: String::from_str("de"),
            microphone: String::from_str("default"),
        }
    }
}


/// The most entries a history keeps.
pub const HISTORY_CAPACITY: usize = 20;

/// A point in time: whole seconds since the Unix epoch and the nanoseconds past them.
#[derive(Clone, Copy, Debug, PartialEq, Eq, Structural)]
pub struct Timestamp {
    pub secs: i64,
    pub nanos: u32,
}

const NANOS_PER_SEC: u128 = 1_000_000_000;

/// The timestamp of the instant `ns` nanoseconds from the Unix epoch (negative
/// before it): whole seconds rounded down and the nanoseconds past them, kept
/// within the range of an `i64` of seconds.
pub open spec fn timestamp_at(ns: int) -> Timestamp {
    let secs = ns / 1_000_000_000;
    if secs > i64::MAX {
        Timestamp { secs: i64::MAX, nanos: 999_999_999 }
    } else if secs < i64::MIN {
        Timestamp { secs: i64::MIN, nanos: 0 }
    } else {
        Timestamp { secs: secs as i64, nanos: (ns % 1_000_000_000) as u32 }
    }
}

/// The timestamp of a reading of the system clock: `after` nanoseconds after
/// the epoch, or `before` nanoseconds before it.
pub fn timestamp_from_reading(reading: Result<u128, u128>) -> (t: Timestamp)
    ensures
        t == match reading {
            Ok(after) => timestamp_at(after as int),
            Err(before) => timestamp_at(-(before as int)),
        },
        t.nanos < 1_000_000_000,
{
    match reading {
        Ok(after) => {
            let secs = after / NANOS_PER_SEC;
            let nanos = after % NANOS_PER_SEC;
            if secs > 0x7fff_ffff_ffff_ffff {
                Timestamp { secs: 0x7fff_ffff_ffff_ffff, nanos: 999_999_999 }
            } else {
                Timestamp { secs: secs as i64, nanos: nanos as u32 }
            }
        },
        Err(before) => {
            let whole = before / NANOS_PER_SEC;
            let rest = before % NANOS_PER_SEC;
            proof {
                let ns = -(before as int);
                assert(rest == 0 ==> ns / 1_000_000_000 == -(whole as int) && ns % 1_000_000_000 == 0)
                    by (nonlinear_arith)
                    requires
                        whole == before / 1_000_000_000,
                        rest == before % 1_000_000_000,
                        ns == -(before as int),
                ;
                assert(rest != 0 ==> ns / 1_000_000_000 == -(whole as int) - 1 && ns % 1_000_000_000
                    == 1_000_000_000 - rest) by (nonlinear_arith)
                    requires
                        whole == before / 1_000_000_000,
                        rest == before % 1_000_000_000,
                        ns == -(before as int),
                ;
            }
            if rest == 0 {
                if whole > 0x8000_0000_0000_0000 {
                    Timestamp { secs: -0x8000_0000_0000_0000, nanos: 0 }
                } else {
                    Timestamp { secs: (0 - (whole as i128)) as i64, nanos: 0 }
                }
            } else {
                if whole >= 0x8000_0000_0000_0000 {
                    Timestamp { secs: -0x8000_0000_0000_0000, nanos: 0 }
                } else {
                    Timestamp { secs: (0 - (whole as i128) - 1) as i64, nanos: (NANOS_PER_SEC - rest) as u32 }
                }
            }
        },
    }
}

/// The current time by the system clock, as a timestamp.
fn timestamp_now() -> (t: Timestamp)
    ensures
        exists|ns: int| t == timestamp_at(ns),
        t.nanos < 1_000_000_000,
{
    let now = system_now();
    let reading = match since_unix_epoch(&now) {
        Ok(d) => Ok(duration_nanos(&d)),
        Err(d) => Err(duration_nanos(&d)),
    };
    let t = timestamp_from_reading(reading);
    proof {
        match reading {
            Ok(after) => assert(t == timestamp_at(after as int)),
            Err(before) => assert(t == timestamp_at(-(before as int))),
        }
    }
    t
}

/// One transcription kept in the history.
#[derive(Debug)]
pub struct HistoryEntry {
    pub id: u64,
    pub text: String,
    pub timestamp: Timestamp,
}

/// The recent transcriptions, newest first.
#[derive(Debug)]
pub struct TranscriptionHistory {
    pub entries: Vec<HistoryEntry>,
    pub next_id: u64,
}

/// The abstract content of an entry: its id and its text.
pub open spec fn entry_view(e: HistoryEntry) -> (u64, Seq<char>) {
    (e.id, e.text@)
}

impl TranscriptionHistory {
    /// The entries' ids and texts, newest first.
    pub open spec fn items(&self) -> Seq<(u64, Seq<char>)> {
        self.entries@.map_values(|e: HistoryEntry| entry_view(e))
    }

    /// A history as `add_entry` keeps it: at most `HISTORY_CAPACITY` entries,
    /// ids strictly decreasing from newest to oldest and all below `next_id`.
    pub open spec fn well_formed(&self) -> bool {
        &&& self.entries@.len() <= HISTORY_CAPACITY
        &&& forall|i: int, j: int|
            0 <= i < j < self.entries@.len() ==> #[trigger] self.entries@[i].id
                > #[trigger] self.entries@[j].id
        &&& forall|i: int| 0 <= i < self.entries@.len() ==> #[trigger] self.entries@[i].id < self.next_id
    }

    /// An empty history whose first entry gets id 0.
    pub fn new() -> (h: Self)
        ensures
            h.entries@.len() == 0,
            h.next_id == 0,
            h.well_formed(),
    {
        TranscriptionHistory { entries: Vec::new(), next_id: 0 }
    }

    /// Records `text` as the newest entry, stamped with the current time and
    /// the next id, and drops the oldest entries beyond `HISTORY_CAPACITY`.
    pub fn add_entry(&mut self, text: String)
        requires
            old(self).next_id < u64::MAX,
        ensures
            final(self).next_id == old(self).next_id + 1,
            final(self).items() == (seq![(old(self).next_id, text@)] + old(self).items()).take(
                min_len(old(self).entries@.len() + 1int, HISTORY_CAPACITY as int),
            ),
            final(self).entries@.len() == min_len(old(self).entries@.len() + 1int, HISTORY_CAPACITY as int),
            exists|ns: int| final(self).entries@[0].timestamp == timestamp_at(ns),
            final(self).entries@[0].timestamp.nanos < 1_000_000_000,
            old(self).well_formed() ==> final(self).well_formed(),
            forall|i: int|
                0 < i < final(self).entries@.len() ==> #[trigger] final(self).entries@[i]
                    == old(self).entries@[i - 1],
    {
        let entry = HistoryEntry { id: self.next_id, text, timestamp: timestamp_now() };
        self.next_id = self.next_id + 1;
        self.entries.insert(0, entry);
        if self.entries.len() > HISTORY_CAPACITY {
            self.entries.truncate(HISTORY_CAPACITY);
        }
        proof {
            let n = self.entries@.len();
            assert(self.entries@[0].id == old(self).next_id);
            assert(self.items() =~= (seq![(old(self).next_id, text@)] + old(self).items()).take(
                n as int,
            ));
        }
    }

    /// Forgets every entry; ids keep counting from where they were.
    pub fn clear(&mut self)
        ensures
            final(self).well_formed(),
            final(self).entries@.len() == 0,
            final(self).next_id == old(self).next_id,
    {
        self.entries.clear();
    }
}

impl Default for TranscriptionHistory {
    fn default() -> (h: Self)
        ensures
            h.entries@.len() == 0,
            h.next_id == 0,
    {
        TranscriptionHistory::new()
    }
}

/// The smaller of two lengths.
pub open spec fn min_len(a: int, b: int) -> int {
    if a < b {
        a
    } else {
        b
    }
}

} // verus!
