//! Download rules: a daily time window in which downloading may run, a cap
//! on tiles per second, and the pause between batches.
//!
//! The rules are stored as key/value settings; `DownloadRules::from_settings`
//! reads them from the values found (or not found) under their keys.

use vstd::prelude::*;
use crate::text::{chars_of, parse_unsigned, parse_unsigned_chars, str_eq};

verus! {

/// Download rules.
#[derive(Debug, Clone)]
pub struct DownloadRules {
    /// Whether downloading is limited to the time window.
    pub time_window_enabled: bool,
    /// First hour of the window (0-23).
    pub time_window_start: u8,
    /// Hour at which the window closes (0-23); below `start` the window
    /// runs over midnight.
    pub time_window_end: u8,
    /// Most tiles per second (0: no limit).
    pub max_tiles_per_sec: u32,
    /// Pause between batches in milliseconds (0: the built-in random pause).
    pub burst_pause_ms: u32,
}

impl Default for DownloadRules {
    fn default() -> (r: Self)
        ensures
            !r.time_window_enabled,
            r.time_window_start == 22,
            r.time_window_end == 8,
            r.max_tiles_per_sec == 0,
            r.burst_pause_ms == 0,
    {
        DownloadRules {
            time_window_enabled: false,
            time_window_start: 22,
            time_window_end: 8,
            max_tiles_per_sec: 0,
            burst_pause_ms: 0,
        }
    }
}

/// A numeric setting: its value where it is present and reads as a number
/// no greater than `max`, else `default`.
pub open spec fn numeric_setting(v: Option<Seq<char>>, max: nat, default: nat) -> nat {
    match v {
        Some(t) => match parse_unsigned(t, max) {
            Some(n) => n,
            None => default,
        },
        None => default,
    }
}

fn read_numeric(v: Option<&str>, max: u64, default: u64) -> (r: u64)
    requires
        default <= max,
    ensures
        r == numeric_setting(
            match v {
                Some(t) => Some(t@),
                None => None,
            },
            max as nat,
            default as nat,
        ),
        r <= max,
{
    match v {
        Some(t) => match parse_unsigned_chars(&chars_of(t), max) {
            Some(n) => n,
            None => default,
        },
        None => default,
    }
}

pub open spec fn opt_view(v: Option<&str>) -> Option<Seq<char>> {
    match v {
        Some(t) => Some(t@),
        None => None,
    }
}

/// Whether `hour` lies in the window from `start` to `end`: from `start` up
/// to (not including) `end`, running over midnight when `end` < `start`.
pub open spec fn in_window(start: u8, end: u8, hour: u32) -> bool {
    if start <= end {
        start <= hour && hour < end
    } else {
        hour >= start || hour < end
    }
}

impl DownloadRules {
    /// Whether the rules let downloading run at `hour`.
    pub open spec fn allows(&self, hour: u32) -> bool {
        !self.time_window_enabled || in_window(self.time_window_start, self.time_window_end, hour)
    }

    /// The rules from the stored settings `rules.time_window_enabled`,
    /// `rules.time_window_start`, `rules.time_window_end`,
    /// `rules.max_tiles_per_sec` and `rules.burst_pause_ms` (`None` where a
    /// key is not stored): a value that does not read falls back to the
    /// default of its key.
    pub fn from_settings(
        enabled: Option<&str>,
        start: Option<&str>,
        end: Option<&str>,
        max_tiles_per_sec: Option<&str>,
        burst_pause_ms: Option<&str>,
    ) -> (r: Self)
        ensures
            r.time_window_enabled == (enabled matches Some(t) && t@ == "true"@),
            r.time_window_start == numeric_setting(opt_view(start), 255, 22),
            r.time_window_end == numeric_setting(opt_view(end), 255, 8),
            r.max_tiles_per_sec == numeric_setting(opt_view(max_tiles_per_sec), 0xffff_ffff, 0),
            r.burst_pause_ms == numeric_setting(opt_view(burst_pause_ms), 0xffff_ffff, 0),
    {
        let on = match enabled {
            Some(t) => str_eq(t, "true"),
            None => false,
        };
        DownloadRules {
            time_window_enabled: on,
            time_window_start: read_numeric(start, 255, 22) as u8,
            time_window_end: read_numeric(end, 255, 8) as u8,
            max_tiles_per_sec: read_numeric(max_tiles_per_sec, 0xffff_ffff, 0) as u32,
            burst_pause_ms: read_numeric(burst_pause_ms, 0xffff_ffff, 0) as u32,
        }
    }

    /// Whether downloading may run at `hour` (0-23) of the local day.
    pub fn allows_hour(&self, hour: u32) -> (r: bool)
        ensures
            r == self.allows(hour),
    {
        if !self.time_window_enabled {
            return true;
        }
        let start = self.time_window_start as u32;
        let end = self.time_window_end as u32;
        if start <= end {
            hour >= start && hour < end
        } else {
            hour >= start || hour < end
        }
    }

    /// Whether downloading may run now, by the hour of the local clock.
    pub fn is_in_window(&self) -> (r: bool)
        ensures
            !self.time_window_enabled ==> r,
            exists|h: u32| h < 24 && r == #[trigger] self.allows(h),
    {
        let h = local_hour();
        let r = self.allows_hour(h);
        assert(h < 24 && r == self.allows(h));
        r
    }

    /// The least delay between two tiles for the rate cap, in milliseconds
    /// (0 without a cap).
    pub fn per_tile_delay_ms(&self) -> (r: u64)
        ensures
            self.max_tiles_per_sec == 0 ==> r == 0,
            self.max_tiles_per_sec > 0 ==> r == 1000u64 / (self.max_tiles_per_sec as u64),
    {
        if self.max_tiles_per_sec == 0 {
            return 0;
        }
        1000 / self.max_tiles_per_sec as u64
    }

    /// The configured pause between batches; `None` for the built-in one.
    pub fn batch_pause_ms(&self) -> (r: Option<u64>)
        ensures
            self.burst_pause_ms > 0 ==> r == Some(self.burst_pause_ms as u64),
            self.burst_pause_ms == 0 ==> r is None,
    {
        if self.burst_pause_ms > 0 {
            Some(self.burst_pause_ms as u64)
        } else {
            None
        }
    }
}

/// `chrono::Local::now().hour()`: the hour of the local clock, which chrono
/// documents to lie in `0..24`; which hour it is depends on the time.
#[verifier::external_body]
fn local_hour() -> (r: u32)
    ensures
        r < 24,
{
    chrono::Timelike::hour(&chrono::Local::now())
}

/// A window and the window with its ends swapped split the day between
/// them: each hour lies in exactly one of them (for distinct ends).
pub proof fn lemma_window_complement(start: u8, end: u8, hour: u32)
    requires
        start != end,
    ensures
        in_window(start, end, hour) != in_window(end, start, hour),
{
}

/// A window whose ends are equal never opens.
pub proof fn lemma_window_empty(h: u8, hour: u32)
    ensures
        !in_window(h, h, hour),
{
}

/// The rate cap's delay times the cap never exceeds one second.
pub proof fn lemma_per_tile_delay_bound(max: u32)
    requires
        max > 0,
    ensures
        (1000u64 / (max as u64)) * (max as u64) <= 1000,
{
    assert((1000u64 / (max as u64)) * (max as u64) <= 1000) by (nonlinear_arith)
        requires
            max > 0,
    ;
}

} // verus!
