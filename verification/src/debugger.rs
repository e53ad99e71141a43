//! The figures of the overlay: the lines of text that it shows, and the
//! times that it gathers between two refreshes.
//!
//! The overlay measures nothing itself. Its caller hands it the times of a
//! frame in microseconds and writes the lines from the report it gets back.
use crate::monitor::Monitor;
use vstd::prelude::*;

verus! {

/// The number of ticks after which the gathered times start over.
pub const REFRESH_PERIOD: i32 = 60;

/// The times of one frame, in microseconds.
#[derive(Clone, Copy, Debug)]
pub struct FrameTimes {
    /// The time that drawing the field took.
    pub rendering: u64,
    /// The time that advancing the field took.
    pub update: u64,
    /// The time since the overlay was last refreshed.
    pub since_refresh: u64,
}

/// The figures that a refreshed overlay shows.
#[derive(Clone, Copy, Debug, PartialEq, Eq)]
pub struct Report {
    /// The number of ticks that the game has made.
    pub step: i32,
    /// The mean time between two refreshes, over the last full window.
    pub frame_mean: u64,
    /// The time spent drawing since the gathered times last started over.
    pub rendering: u64,
    /// The time spent advancing since the gathered times last started over.
    pub update: u64,
    /// The number of ticks since the gathered times last started over, by
    /// which the two times are to be divided.
    pub ticks: i32,
}

/// The remainder of `a` by a positive `d`, with the sign of `a`.
pub open spec fn remainder(a: int, d: int) -> int {
    if a >= 0 {
        a % d
    } else {
        -((-a) % d)
    }
}

/// The sum of two times, or the largest `u64` if the sum exceeds it.
pub open spec fn capped(a: int, b: int) -> int {
    if a + b > u64::MAX {
        u64::MAX as int
    } else {
        a + b
    }
}

pub struct Debugger {
    text: Vec<String>,
    frame_time_monitor: Monitor,
    rendering_duration: u64,
    update_duration: u64,
}

impl Debugger {
    /// The lines of text, in the order in which they were written.
    pub closed spec fn lines(&self) -> Seq<Seq<char>> {
        self.text@.map_values(|s: String| s@)
    }

    /// The time spent drawing since the gathered times last started over.
    pub closed spec fn rendering(&self) -> int {
        self.rendering_duration as int
    }

    /// The time spent advancing since the gathered times last started over.
    pub closed spec fn updating(&self) -> int {
        self.update_duration as int
    }

    /// The monitor of the time between two refreshes.
    pub closed spec fn monitor(&self) -> Monitor {
        self.frame_time_monitor
    }

    /// Whether a frame refreshes the overlay: one that advanced the field
    /// does, and so does any frame while the overlay shows nothing.
    pub open spec fn refreshes(&self, just_updated: bool) -> bool {
        just_updated || self.lines().len() == 0
    }

    pub fn new() -> (d: Self)
        ensures
            d.lines() == Seq::<Seq<char>>::empty(),
            d.rendering() == 0,
            d.updating() == 0,
            d.monitor().shown() == 0,
            d.monitor().gathered() == 0,
            d.monitor().count() == 0,
    {
        let d = Self {
            text: Vec::new(),
            frame_time_monitor: Monitor::new(),
            rendering_duration: 0,
            update_duration: 0,
        };
        assert(d.lines() =~= Seq::<Seq<char>>::empty());
        d
    }

    /// Removes every line.
    pub fn clear(&mut self)
        ensures
            final(self).lines() == Seq::<Seq<char>>::empty(),
            final(self).rendering() == old(self).rendering(),
            final(self).updating() == old(self).updating(),
            final(self).monitor() == old(self).monitor(),
    {
        self.text.clear();
        assert(self.lines() =~= Seq::<Seq<char>>::empty());
    }

    /// Writes `s` and a line break, as two entries.
    pub fn println(&mut self, s: &str)
        ensures
            final(self).lines() == old(self).lines().push(s@).push("\n"@),
            final(self).rendering() == old(self).rendering(),
            final(self).updating() == old(self).updating(),
            final(self).monitor() == old(self).monitor(),
    {
        self.text.push(s.to_owned());
        self.text.push("\n".to_owned());
        assert(self.lines() =~= old(self).lines().push(s@).push("\n"@));
    }

    /// The lines of text.
    pub fn text(&self) -> (text: &Vec<String>)
        ensures
            text@.map_values(|s: String| s@) == self.lines(),
    {
        &self.text
    }

    /// Takes the times of one frame. A frame that refreshes the overlay adds
    /// its times to the gathered ones, hands the time since the last refresh
    /// to the monitor, starts the gathered times over on every sixtieth
    /// tick, and removes the lines; the report holds what the new lines are
    /// to show. Any other frame changes nothing.
    pub fn update(&mut self, just_updated: bool, step: i32, times: FrameTimes) -> (report: Option<
        Report,
    >)
        ensures
            !old(self).refreshes(just_updated) ==> {
                &&& report is None
                &&& final(self).lines() == old(self).lines()
                &&& final(self).rendering() == old(self).rendering()
                &&& final(self).updating() == old(self).updating()
                &&& final(self).monitor() == old(self).monitor()
            },
            old(self).refreshes(just_updated) ==> {
                &&& final(self).lines() == Seq::<Seq<char>>::empty()
                &&& final(self).monitor().follows(old(self).monitor(), times.since_refresh)
                &&& final(self).rendering() == if step % REFRESH_PERIOD == 0 {
                    0
                } else {
                    capped(old(self).rendering(), times.rendering as int)
                }
                &&& final(self).updating() == if step % REFRESH_PERIOD == 0 {
                    0
                } else {
                    capped(old(self).updating(), times.update as int)
                }
                &&& report == Some(
                    Report {
                        step,
                        frame_mean: final(self).monitor().shown() as u64,
                        rendering: final(self).rendering() as u64,
                        update: final(self).updating() as u64,
                        ticks: remainder(step as int, REFRESH_PERIOD as int) as i32,
                    },
                )
            },
    {
        if just_updated || self.text.len() == 0 {
            self.rendering_duration = if self.rendering_duration > u64::MAX - times.rendering {
                u64::MAX
            } else {
                self.rendering_duration + times.rendering
            };
            self.update_duration = if self.update_duration > u64::MAX - times.update {
                u64::MAX
            } else {
                self.update_duration + times.update
            };
            self.frame_time_monitor.inc(times.since_refresh);
            if step % REFRESH_PERIOD == 0 {
                self.rendering_duration = 0;
                self.update_duration = 0;
            }
            self.clear();
            Some(
                Report {
                    step,
                    frame_mean: self.frame_time_monitor.mean(),
                    rendering: self.rendering_duration,
                    update: self.update_duration,
                    ticks: step % REFRESH_PERIOD,
                },
            )
        } else {
            None
        }
    }
}

} // verus!
