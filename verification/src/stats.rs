use vstd::prelude::*;

use crate::packet::buffer::{no_stats, Stats};

verus! {

/// The counters of a stream, and how they have changed.
#[derive(Debug, Eq, PartialEq, Clone, Copy, Structural)]
pub struct StreamStats {
    pub has_stas: bool,
    pub last_stats: Stats,
    pub diff_stats: Stats,
}

impl Default for StreamStats {
    fn default() -> (stats: Self)
        ensures
            stats == (StreamStats {
                has_stas: false,
                last_stats: no_stats(),
                diff_stats: no_stats(),
            }),
    {
        StreamStats { has_stas: false, last_stats: Stats::default(), diff_stats: Stats::default() }
    }
}

/// What is known of a stream.
pub struct Stream {
    /// SSRC of the buffer of the stream.
    pub ssrc: u32,
    pub cname: String,
    pub drift_in_millis: u64,
    pub stats: StreamStats,
}

/// The difference of two counters that may have wrapped around.
pub open spec fn counter_diff(now: u32, before: u32) -> u32 {
    ((now - before) % 0x1_0000_0000) as u32
}

/// How the counters have changed. The difference of the packets that were expected is not kept:
/// that of the packets that were received takes its place.
pub open spec fn stats_diff(now: Stats, before: Stats, diff: Stats) -> Stats {
    Stats {
        last_expected: counter_diff(now.last_received, before.last_received),
        packet_count: counter_diff(now.packet_count, before.packet_count),
        total_byte: ((now.total_byte - before.total_byte) % 0x1_0000_0000_0000_0000) as u64,
        ..diff
    }
}

impl Stream {
    pub fn new(ssrc: u32) -> (stream: Self)
        ensures
            stream.ssrc == ssrc,
            stream.cname@.len() == 0,
            stream.drift_in_millis == 0,
            !stream.stats.has_stas,
            stream.stats.last_stats == no_stats(),
            stream.stats.diff_stats == no_stats(),
    {
        Self { ssrc, cname: String::new(), drift_in_millis: 0, stats: StreamStats::default() }
    }

    pub fn get_cname(&self) -> (cname: String)
        ensures
            cname@ == self.cname@,
    {
        self.cname.clone()
    }

    pub fn set_cname(&mut self, val: String)
        ensures
            *final(self) == (Stream { cname: val, ..*old(self) }),
    {
        self.cname = val;
    }

    pub fn set_drift_in_millis(&mut self, val: u64)
        ensures
            *final(self) == (Stream { drift_in_millis: val, ..*old(self) }),
    {
        self.drift_in_millis = val;
    }

    pub fn get_drift_in_millis(&self) -> (val: u64)
        ensures
            val == self.drift_in_millis,
    {
        self.drift_in_millis
    }

    /// Takes note of the counters.
    ///
    /// # Returns
    /// - Whether there were counters before
    /// - How the counters have changed since
    pub fn update_stats(&mut self, stats: Stats) -> (res: (bool, Stats))
        ensures
            res.0 == old(self).stats.has_stas,
            res.1 == final(self).stats.diff_stats,
            counted(*old(self), *final(self), stats, res),
            *final(self) == (Stream {
                stats: StreamStats {
                    has_stas: true,
                    last_stats: stats,
                    diff_stats: if old(self).stats.has_stas {
                        stats_diff(
                            stats,
                            old(self).stats.last_stats,
                            old(self).stats.diff_stats,
                        )
                    } else {
                        old(self).stats.diff_stats
                    },
                },
                ..*old(self)
            }),
    {
        let mut has_status = false;
        if self.stats.has_stas {
            let last = self.stats.last_stats;
            self.stats.diff_stats.last_expected = stats.last_received.wrapping_sub(
                last.last_received,
            );
            self.stats.diff_stats.packet_count = stats.packet_count.wrapping_sub(last.packet_count);
            self.stats.diff_stats.total_byte = stats.total_byte.wrapping_sub(last.total_byte);
            has_status = true;
        }
        self.stats.last_stats = stats;
        self.stats.has_stas = true;
        (has_status, self.stats.diff_stats)
    }
}

/// Whether the counters were taken note of, and how they have changed is told.
pub open spec fn counted(before: Stream, after: Stream, stats: Stats, res: (bool, Stats)) -> bool {
    &&& after == (Stream { stats: after.stats, ..before })
    &&& res.0 == before.stats.has_stas
    &&& res.1 == after.stats.diff_stats
    &&& after.stats.has_stas
    &&& after.stats.last_stats == stats
    &&& after.stats.diff_stats == if before.stats.has_stas {
        stats_diff(stats, before.stats.last_stats, before.stats.diff_stats)
    } else {
        before.stats.diff_stats
    }
}

/// What is told of two readings of the counters, one after the other, is by how much they have grown,
/// also where a counter has wrapped around in between. Nothing is told of the first reading alone.
pub proof fn law_growth_of_the_counters_is_told(
    new: Stream,
    once: Stream,
    twice: Stream,
    first: Stats,
    second: Stats,
    told: (bool, Stats),
    grown: (bool, Stats),
)
    requires
        !new.stats.has_stas,
        counted(new, once, first, told),
        counted(once, twice, second, grown),
    ensures
        !told.0,
        grown.0,
        (first.packet_count + grown.1.packet_count) % 0x1_0000_0000 == second.packet_count,
        (first.last_received + grown.1.last_expected) % 0x1_0000_0000 == second.last_received,
        (first.total_byte + grown.1.total_byte) % 0x1_0000_0000_0000_0000 == second.total_byte,
        first.packet_count <= second.packet_count ==> grown.1.packet_count == second.packet_count
            - first.packet_count,
        first.total_byte <= second.total_byte ==> grown.1.total_byte == second.total_byte
            - first.total_byte,
        twice.stats.last_stats == second,
        twice.ssrc == new.ssrc,
        twice.cname == new.cname,
        twice.drift_in_millis == new.drift_in_millis,
{
}

} // verus!
