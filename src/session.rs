//! The viewer's state between display ticks: which window comes next, the
//! elapsed mission time, and what the keyboard has asked for.

use vstd::prelude::*;
use crate::segment::{gap, time_gap, TelemetryRecord};

verus! {

/// Nanoseconds in one second: the unit of the displayed mission time.
pub const TICK_NS: u64 = 1_000_000_000;

/// The keys the viewer tells apart.
#[derive(Clone, Copy, Debug, PartialEq, Eq, Structural)]
pub enum Key {
    Char(char),
    Left,
    Right,
    Backspace,
    Other,
}

/// Whole seconds from `start` to `now`; a `now` before `start` gives zero.
pub open spec fn elapsed_seconds(start: u64, now: u64) -> int {
    gap(start, now) / (TICK_NS as int)
}

/// `c + 1`, held at the top of the `u8` range.
pub open spec fn counter_up(c: u8) -> u8 {
    if c == u8::MAX {
        c
    } else {
        (c + 1) as u8
    }
}

/// `c - 1`, held at zero.
pub open spec fn counter_down(c: u8) -> u8 {
    if c == 0 {
        c
    } else {
        (c - 1) as u8
    }
}

/// Whether pressing `key` is echoed back to the user.
pub open spec fn is_echoed(key: Key) -> bool {
    key == Key::Backspace || key == Key::Char(' ')
}

/// State of the telemetry viewer.
pub struct App<M> {
    /// A value the arrow keys step up and down.
    pub counter: u8,
    /// Set once the user has asked to quit.
    pub exit: bool,
    /// Index of the next window to show.
    pub current_chunk: usize,
    /// The windows to show, in order.
    pub chunks: Vec<Vec<TelemetryRecord<M>>>,
    /// Timestamp of the first sample shown, once one has been.
    pub initial_time: Option<u64>,
    /// Whole seconds from the first sample shown to the last sample of the
    /// latest window.
    pub current_time: u64,
}

impl<M: Copy> App<M> {
    /// A viewer at the start of `chunks`.
    pub fn new(chunks: Vec<Vec<TelemetryRecord<M>>>) -> (r: Self)
        ensures
            r.counter == 0,
            !r.exit,
            r.current_chunk == 0,
            r.chunks@ == chunks@,
            r.initial_time is None,
            r.current_time == 0,
    {
        App { counter: 0, exit: false, current_chunk: 0, chunks, initial_time: None, current_time: 0 }
    }

    /// Moves to the next window, if one is left, and returns its latest
    /// sample. The first sample ever shown fixes the start of mission time;
    /// `current_time` becomes the whole seconds from there to the returned
    /// sample. An empty window is passed over with nothing returned.
    pub fn next_chunk(&mut self) -> (r: Option<TelemetryRecord<M>>)
        ensures
            final(self).counter == old(self).counter,
            final(self).exit == old(self).exit,
            final(self).chunks@ == old(self).chunks@,
            old(self).current_chunk >= old(self).chunks@.len() ==> {
                &&& r is None
                &&& final(self).current_chunk == old(self).current_chunk
                &&& final(self).initial_time == old(self).initial_time
                &&& final(self).current_time == old(self).current_time
            },
            old(self).current_chunk < old(self).chunks@.len() ==> {
                let w = old(self).chunks@[old(self).current_chunk as int]@;
                let start = match old(self).initial_time {
                    Some(t) => t,
                    None => w[0].timestamp_ns,
                };
                &&& final(self).current_chunk == old(self).current_chunk + 1
                &&& w.len() == 0 ==> {
                    &&& r is None
                    &&& final(self).initial_time == old(self).initial_time
                    &&& final(self).current_time == old(self).current_time
                }
                &&& w.len() > 0 ==> {
                    &&& r == Some(w.last())
                    &&& final(self).initial_time == Some(start)
                    &&& final(self).current_time == elapsed_seconds(start, w.last().timestamp_ns)
                }
            },
    {
        if self.current_chunk >= self.chunks.len() {
            return None;
        }
        let idx = self.current_chunk;
        self.current_chunk = idx + 1;
        let len = self.chunks[idx].len();
        if len == 0 {
            return None;
        }
        let first = self.chunks[idx][0];
        let last = self.chunks[idx][len - 1];
        let start = match self.initial_time {
            Some(t) => t,
            None => first.timestamp_ns,
        };
        self.initial_time = Some(start);
        self.current_time = time_gap(start, last.timestamp_ns) / TICK_NS;
        Some(last)
    }

    /// Applies one key press: `q` quits, the arrows step the counter. The
    /// result says whether the key is one that is echoed back.
    pub fn handle_key_event(&mut self, key: Key) -> (echo: bool)
        ensures
            final(self).counter == (match key {
                Key::Left => counter_down(old(self).counter),
                Key::Right => counter_up(old(self).counter),
                _ => old(self).counter,
            }),
            final(self).exit == (old(self).exit || key == Key::Char('q')),
            final(self).current_chunk == old(self).current_chunk,
            final(self).chunks@ == old(self).chunks@,
            final(self).initial_time == old(self).initial_time,
            final(self).current_time == old(self).current_time,
            echo == is_echoed(key),
    {
        match key {
            Key::Char('q') => self.exit(),
            Key::Left => self.decrement_counter(),
            Key::Right => self.increment_counter(),
            _ => {},
        }
        match key {
            Key::Backspace => true,
            Key::Char(' ') => true,
            _ => false,
        }
    }

    /// Records that the user asked to quit.
    pub fn exit(&mut self)
        ensures
            final(self).exit,
            final(self).counter == old(self).counter,
            final(self).current_chunk == old(self).current_chunk,
            final(self).chunks@ == old(self).chunks@,
            final(self).initial_time == old(self).initial_time,
            final(self).current_time == old(self).current_time,
    {
        self.exit = true;
    }

    /// Steps the counter up, held at its largest value.
    pub fn increment_counter(&mut self)
        ensures
            final(self).counter == counter_up(old(self).counter),
            final(self).exit == old(self).exit,
            final(self).current_chunk == old(self).current_chunk,
            final(self).chunks@ == old(self).chunks@,
            final(self).initial_time == old(self).initial_time,
            final(self).current_time == old(self).current_time,
    {
        self.counter = self.counter.saturating_add(1);
    }

    /// Steps the counter down, held at zero.
    pub fn decrement_counter(&mut self)
        ensures
            final(self).counter == counter_down(old(self).counter),
            final(self).exit == old(self).exit,
            final(self).current_chunk == old(self).current_chunk,
            final(self).chunks@ == old(self).chunks@,
            final(self).initial_time == old(self).initial_time,
            final(self).current_time == old(self).current_time,
    {
        self.counter = self.counter.saturating_sub(1);
    }
}

impl<M: Copy> Default for App<M> {
    /// A viewer with no windows to show.
    fn default() -> (r: Self)
        ensures
            r.counter == 0,
            !r.exit,
            r.current_chunk == 0,
            r.chunks@.len() == 0,
            r.initial_time is None,
            r.current_time == 0,
    {
        App::new(Vec::new())
    }
}

} // verus!
