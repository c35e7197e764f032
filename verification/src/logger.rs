//! An in-memory record of strikes and of how well their timing was kept.
//! The host writes it out when the session ends.

use vstd::prelude::*;
use crate::striker_hardware_util::StrikerHardwareKind;

verus! {

/// A log entry representing one strike
#[derive(Debug)]
pub struct StrikeLogEntry {
    /// UNIX timestamp but in milliseconds
    pub time: u64,
    /// milliseconds since the last hit (0 if this is the first hit)
    pub ms_since_last: u64,
    /// nanosecond duration calculated from striker kind and velocity
    pub planned_duration_ns: u64,
    /// nanosecond duration between when the striker was triggered and when it was turned off
    pub actual_duration_ns: u64,
    /// The kind of striker used
    pub striker_kind: StrikerHardwareKind,
    /// The raw MIDI data that triggered the hit
    pub midi_data: (u8, u8, u8),
    /// The note number of the midi data
    pub note_num: u8,
    /// The velocity value of the midi data
    pub velocity: u8,
    /// The name of the striker that was fired
    pub striker_name: String,
    /// The number of the output line of the striker that was fired
    pub target_pin: u8,
}

/// A log entry, with the striker's name as a sequence of characters.
pub ghost struct StrikeLogEntryView {
    pub time: u64,
    pub ms_since_last: u64,
    pub planned_duration_ns: u64,
    pub actual_duration_ns: u64,
    pub striker_kind: StrikerHardwareKind,
    pub midi_data: (u8, u8, u8),
    pub note_num: u8,
    pub velocity: u8,
    pub striker_name: Seq<char>,
    pub target_pin: u8,
}

impl View for StrikeLogEntry {
    type V = StrikeLogEntryView;

    open spec fn view(&self) -> StrikeLogEntryView {
        StrikeLogEntryView {
            time: self.time,
            ms_since_last: self.ms_since_last,
            planned_duration_ns: self.planned_duration_ns,
            actual_duration_ns: self.actual_duration_ns,
            striker_kind: self.striker_kind,
            midi_data: self.midi_data,
            note_num: self.note_num,
            velocity: self.velocity,
            striker_name: self.striker_name@,
            target_pin: self.target_pin,
        }
    }
}

pub enum LogEntry {
    /// represents a strike triggered by incoming MIDI data
    Strike(StrikeLogEntry),
}

/// The time that passed between two entries, in milliseconds; zero where
/// the clock went backwards.
pub open spec fn elapsed_ms(last: u64, time: u64) -> u64 {
    if time >= last {
        (time - last) as u64
    } else {
        0
    }
}

/// The `ms_since_last` that belongs to an entry made at `time` after the
/// entries in `log`.
pub open spec fn ms_since_last_entry(log: Seq<StrikeLogEntryView>, time: u64) -> u64 {
    if log.len() == 0 {
        0
    } else {
        elapsed_ms(log.last().time, time)
    }
}

/// Every entry records the time that passed since the entry before it, and
/// the first records zero.
pub open spec fn chained(log: Seq<StrikeLogEntryView>) -> bool {
    forall|i: int|
        0 <= i < log.len() ==> (#[trigger] log[i]).ms_since_last == ms_since_last_entry(
            log.take(i),
            log[i].time,
        )
}

/// A chained log stays chained when an entry with the right
/// `ms_since_last` is added.
pub proof fn lemma_chained_push(log: Seq<StrikeLogEntryView>, entry: StrikeLogEntryView)
    requires
        chained(log),
        entry.ms_since_last == ms_since_last_entry(log, entry.time),
    ensures
        chained(log.push(entry)),
{
    let longer = log.push(entry);
    assert forall|i: int| 0 <= i < longer.len() implies (#[trigger] longer[i]).ms_since_last
        == ms_since_last_entry(longer.take(i), longer[i].time) by {
    }
}

/// In a chained log whose times never decrease, the first entry records
/// zero and every other entry records exactly the difference between its
/// time and the time of the entry before it.
pub proof fn lemma_chained_differences(log: Seq<StrikeLogEntryView>, i: int)
    requires
        chained(log),
        0 <= i < log.len(),
        forall|j: int| 0 < j < log.len() ==> log[j - 1].time <= #[trigger] log[j].time,
    ensures
        i == 0 ==> log[i].ms_since_last == 0,
        i > 0 ==> log[i].ms_since_last == log[i].time - log[i - 1].time,
{
}

pub struct Logger {
    /// All the hits that have been logged, oldest first
    hit_log: Vec<StrikeLogEntry>,
}

impl View for Logger {
    type V = Seq<StrikeLogEntryView>;

    closed spec fn view(&self) -> Seq<StrikeLogEntryView> {
        self.hit_log@.map_values(|entry: StrikeLogEntry| entry@)
    }
}

impl Logger {
    /// Create a new logger
    pub fn new() -> (r: Self)
        ensures
            r@ == Seq::<StrikeLogEntryView>::empty(),
    {
        Self { hit_log: Vec::new() }
    }

    /// Log a given entry to its respective collection
    pub fn log(&mut self, entry: LogEntry)
        ensures
            final(self)@ == old(self)@.push(entry->Strike_0@),
    {
        match entry {
            LogEntry::Strike(hit) => {
                self.hit_log.push(hit);
            },
        }
    }

    /// Whether anything has been logged
    pub fn has_data(&self) -> (r: bool)
        ensures
            r == (self@.len() > 0),
    {
        !self.hit_log.is_empty()
    }

    /// Get the time of the last hit
    pub fn last_hit_time(&self) -> (r: Option<u64>)
        ensures
            r == (if self@.len() == 0 {
                None
            } else {
                Some(self@.last().time)
            }),
    {
        let n: usize = self.hit_log.len();
        if n == 0 {
            None
        } else {
            Some(self.hit_log[n - 1].time)
        }
    }

    /// The entries, oldest first.
    pub fn entries(&self) -> (r: &Vec<StrikeLogEntry>)
        ensures
            r@.map_values(|entry: StrikeLogEntry| entry@) == self@,
    {
        &self.hit_log
    }
}

} // verus!
