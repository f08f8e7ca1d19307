//! The gauges that the exporter publishes, and what each reads after a
//! successful look at the repository.

use vstd::prelude::*;
use crate::borg::{ArchivesList, BorgError, CacheStats, Info};

verus! {

/// The name of the label that every gauge carries; its value is the
/// repository that is monitored.
pub const REPOSITORY_LABEL: &'static str = "repository";

/// The eight gauges.
#[derive(Clone, Copy, Debug, PartialEq, Eq, Hash, Structural)]
pub enum Gauge {
    ArchivesLatestTime,
    ArchivesTotal,
    ChunksTotal,
    ArchivesCompressedSize,
    ArchivesSize,
    ChunksDeduplicatedTotal,
    ArchivesDeduplicatedCompressedSize,
    ArchivesDeduplicatedSize,
}

impl Gauge {
    /// The name under which the gauge is exported.
    pub open spec fn spec_metric_name(self) -> Seq<char> {
        match self {
            Gauge::ArchivesLatestTime => "borg_archives_latest_time"@,
            Gauge::ArchivesTotal => "borg_archives_total"@,
            Gauge::ChunksTotal => "borg_chunks_total"@,
            Gauge::ArchivesCompressedSize => "borg_archives_compressed_size"@,
            Gauge::ArchivesSize => "borg_archives_size"@,
            Gauge::ChunksDeduplicatedTotal => "borg_chunks_deduplicated_total"@,
            Gauge::ArchivesDeduplicatedCompressedSize => "borg_archives_deduplicated_compressed_size"@,
            Gauge::ArchivesDeduplicatedSize => "borg_archives_deduplicated_size"@,
        }
    }

    /// The sentence that describes the gauge to a reader of the metrics.
    pub open spec fn spec_help(self) -> Seq<char> {
        match self {
            Gauge::ArchivesLatestTime => "Timestamp of the latest archive"@,
            Gauge::ArchivesTotal => "Number of available archives"@,
            Gauge::ChunksTotal => "Number of chunks"@,
            Gauge::ArchivesCompressedSize => "Compressed size of all archives"@,
            Gauge::ArchivesSize => "Original size of all archives"@,
            Gauge::ChunksDeduplicatedTotal => "Number of unique chunks"@,
            Gauge::ArchivesDeduplicatedCompressedSize => "Compressed, deduplicated size of all archives"@,
            Gauge::ArchivesDeduplicatedSize => "Deduplicated size of all archives"@,
        }
    }

    /// The eight gauges in the order in which they are registered.
    pub open spec fn spec_all() -> Seq<Gauge> {
        seq![
            Gauge::ArchivesLatestTime,
            Gauge::ArchivesTotal,
            Gauge::ChunksTotal,
            Gauge::ArchivesCompressedSize,
            Gauge::ArchivesSize,
            Gauge::ChunksDeduplicatedTotal,
            Gauge::ArchivesDeduplicatedCompressedSize,
            Gauge::ArchivesDeduplicatedSize,
        ]
    }

    pub fn metric_name(&self) -> (name: &'static str)
        ensures
            name@ == self.spec_metric_name(),
    {
        match self {
            Gauge::ArchivesLatestTime => "borg_archives_latest_time",
            Gauge::ArchivesTotal => "borg_archives_total",
            Gauge::ChunksTotal => "borg_chunks_total",
            Gauge::ArchivesCompressedSize => "borg_archives_compressed_size",
            Gauge::ArchivesSize => "borg_archives_size",
            Gauge::ChunksDeduplicatedTotal => "borg_chunks_deduplicated_total",
            Gauge::ArchivesDeduplicatedCompressedSize => "borg_archives_deduplicated_compressed_size",
            Gauge::ArchivesDeduplicatedSize => "borg_archives_deduplicated_size",
        }
    }

    pub fn help(&self) -> (help: &'static str)
        ensures
            help@ == self.spec_help(),
    {
        match self {
            Gauge::ArchivesLatestTime => "Timestamp of the latest archive",
            Gauge::ArchivesTotal => "Number of available archives",
            Gauge::ChunksTotal => "Number of chunks",
            Gauge::ArchivesCompressedSize => "Compressed size of all archives",
            Gauge::ArchivesSize => "Original size of all archives",
            Gauge::ChunksDeduplicatedTotal => "Number of unique chunks",
            Gauge::ArchivesDeduplicatedCompressedSize => "Compressed, deduplicated size of all archives",
            Gauge::ArchivesDeduplicatedSize => "Deduplicated size of all archives",
        }
    }

    pub fn all() -> (gauges: Vec<Gauge>)
        ensures
            gauges@ == Gauge::spec_all(),
    {
        let mut gauges: Vec<Gauge> = Vec::new();
        gauges.push(Gauge::ArchivesLatestTime);
        gauges.push(Gauge::ArchivesTotal);
        gauges.push(Gauge::ChunksTotal);
        gauges.push(Gauge::ArchivesCompressedSize);
        gauges.push(Gauge::ArchivesSize);
        gauges.push(Gauge::ChunksDeduplicatedTotal);
        gauges.push(Gauge::ArchivesDeduplicatedCompressedSize);
        gauges.push(Gauge::ArchivesDeduplicatedSize);
        assert(gauges@ =~= Gauge::spec_all());
        gauges
    }
}

/// What fits in a gauge of a counter: the counter itself, or the greatest
/// value of a gauge where the counter is beyond it.
pub open spec fn saturated(counter: int) -> int {
    if counter > i64::MAX {
        i64::MAX as int
    } else {
        counter
    }
}

/// Narrows a counter to the range of a gauge without wrapping.
pub fn gauge_value(counter: u64) -> (value: i64)
    ensures
        value == saturated(counter as int),
        value >= 0,
{
    if counter > i64::MAX as u64 {
        i64::MAX
    } else {
        counter as i64
    }
}

/// Whether a counter is beyond what a gauge can read.
pub fn exceeds_gauge(counter: u64) -> (beyond: bool)
    ensures
        beyond == (counter > i64::MAX),
{
    counter > i64::MAX as u64
}

/// The value of every gauge.
#[derive(Clone, Copy, Debug, PartialEq, Eq, Structural)]
pub struct GaugeSet {
    pub archives_latest_time: i64,
    pub archives_total: i64,
    pub chunks_total: i64,
    pub archives_compressed_size: i64,
    pub archives_size: i64,
    pub chunks_deduplicated_total: i64,
    pub archives_deduplicated_compressed_size: i64,
    pub archives_deduplicated_size: i64,
}

/// For each gauge that is fed by an unsigned counter, whether the counter
/// was beyond the gauge's range at the last look, so that the gauge reads
/// the greatest value instead. Each one is worth a warning.
#[derive(Clone, Copy, Debug, PartialEq, Eq, Structural)]
pub struct Saturation {
    pub archives_total: bool,
    pub chunks_total: bool,
    pub archives_compressed_size: bool,
    pub archives_size: bool,
    pub chunks_deduplicated_total: bool,
    pub archives_deduplicated_compressed_size: bool,
    pub archives_deduplicated_size: bool,
}

/// The outcome of a look at the repository that got both documents.
#[derive(Clone, Copy, Debug, PartialEq, Eq, Structural)]
pub struct Report {
    /// What every gauge reads from now on.
    pub gauges: GaugeSet,
    /// The counters that did not fit.
    pub saturation: Saturation,
    /// `Some(EmptyResult)` where the repository has no archive: the time of
    /// the latest archive is then unknown and its gauge keeps its value.
    pub failure: Option<BorgError>,
}

impl GaugeSet {
    /// What gauge `g` reads.
    pub open spec fn reading(self, g: Gauge) -> int {
        match g {
            Gauge::ArchivesLatestTime => self.archives_latest_time as int,
            Gauge::ArchivesTotal => self.archives_total as int,
            Gauge::ChunksTotal => self.chunks_total as int,
            Gauge::ArchivesCompressedSize => self.archives_compressed_size as int,
            Gauge::ArchivesSize => self.archives_size as int,
            Gauge::ChunksDeduplicatedTotal => self.chunks_deduplicated_total as int,
            Gauge::ArchivesDeduplicatedCompressedSize => self.archives_deduplicated_compressed_size as int,
            Gauge::ArchivesDeduplicatedSize => self.archives_deduplicated_size as int,
        }
    }

    /// The gauges as they are when registered: all zero.
    pub fn new() -> (gauges: GaugeSet)
        ensures
            forall|g: Gauge| gauges.reading(g) == 0,
    {
        GaugeSet {
            archives_latest_time: 0,
            archives_total: 0,
            chunks_total: 0,
            archives_compressed_size: 0,
            archives_size: 0,
            chunks_deduplicated_total: 0,
            archives_deduplicated_compressed_size: 0,
            archives_deduplicated_size: 0,
        }
    }

    pub fn get(&self, g: Gauge) -> (value: i64)
        ensures
            value == self.reading(g),
    {
        match g {
            Gauge::ArchivesLatestTime => self.archives_latest_time,
            Gauge::ArchivesTotal => self.archives_total,
            Gauge::ChunksTotal => self.chunks_total,
            Gauge::ArchivesCompressedSize => self.archives_compressed_size,
            Gauge::ArchivesSize => self.archives_size,
            Gauge::ChunksDeduplicatedTotal => self.chunks_deduplicated_total,
            Gauge::ArchivesDeduplicatedCompressedSize => self.archives_deduplicated_compressed_size,
            Gauge::ArchivesDeduplicatedSize => self.archives_deduplicated_size,
        }
    }
}

impl Saturation {
    /// Whether gauge `g` reads the greatest value in place of its source.
    pub open spec fn holds(self, g: Gauge) -> bool {
        match g {
            Gauge::ArchivesLatestTime => false,
            Gauge::ArchivesTotal => self.archives_total,
            Gauge::ChunksTotal => self.chunks_total,
            Gauge::ArchivesCompressedSize => self.archives_compressed_size,
            Gauge::ArchivesSize => self.archives_size,
            Gauge::ChunksDeduplicatedTotal => self.chunks_deduplicated_total,
            Gauge::ArchivesDeduplicatedCompressedSize => self.archives_deduplicated_compressed_size,
            Gauge::ArchivesDeduplicatedSize => self.archives_deduplicated_size,
        }
    }

    pub fn of(&self, g: Gauge) -> (beyond: bool)
        ensures
            beyond == self.holds(g),
    {
        match g {
            Gauge::ArchivesLatestTime => false,
            Gauge::ArchivesTotal => self.archives_total,
            Gauge::ChunksTotal => self.chunks_total,
            Gauge::ArchivesCompressedSize => self.archives_compressed_size,
            Gauge::ArchivesSize => self.archives_size,
            Gauge::ChunksDeduplicatedTotal => self.chunks_deduplicated_total,
            Gauge::ArchivesDeduplicatedCompressedSize => self.archives_deduplicated_compressed_size,
            Gauge::ArchivesDeduplicatedSize => self.archives_deduplicated_size,
        }
    }
}

/// The counter that feeds gauge `g`, for every gauge but the time of the
/// latest archive.
pub open spec fn counter(g: Gauge, archives: ArchivesList, stats: CacheStats) -> int {
    match g {
        Gauge::ArchivesLatestTime => 0,
        Gauge::ArchivesTotal => archives.archives@.len() as int,
        Gauge::ChunksTotal => stats.total_chunks as int,
        Gauge::ArchivesCompressedSize => stats.total_csize as int,
        Gauge::ArchivesSize => stats.total_size as int,
        Gauge::ChunksDeduplicatedTotal => stats.total_unique_chunks as int,
        Gauge::ArchivesDeduplicatedCompressedSize => stats.unique_csize as int,
        Gauge::ArchivesDeduplicatedSize => stats.unique_size as int,
    }
}

/// What gauge `g` reads once `archives` and `info` have been seen, given
/// what the gauges read before.
pub open spec fn updated_reading(before: GaugeSet, g: Gauge, archives: ArchivesList, info: Info) -> int {
    if g == Gauge::ArchivesLatestTime {
        if archives.archives@.len() == 0 {
            before.archives_latest_time as int
        } else {
            archives.archives@[archives.latest_index()].time@.unix_seconds()
        }
    } else {
        saturated(counter(g, archives, info.cache.stats))
    }
}

/// The report of a look that found `archives` and `info`.
pub open spec fn is_report_of(
    report: Report,
    before: GaugeSet,
    archives: ArchivesList,
    info: Info,
) -> bool {
    &&& forall|g: Gauge| #[trigger] report.gauges.reading(g) == updated_reading(before, g, archives, info)
    &&& forall|g: Gauge| #[trigger]
        report.saturation.holds(g) == (counter(g, archives, info.cache.stats) > i64::MAX)
    &&& report.failure == if archives.archives@.len() == 0 {
        Some(BorgError::EmptyResult)
    } else {
        None::<BorgError>
    }
}

/// Reads every gauge off the two documents.
pub fn report(before: &GaugeSet, archives: &ArchivesList, info: &Info) -> (report: Report)
    ensures
        is_report_of(report, *before, *archives, *info),
{
    let stats = &info.cache.stats;
    let count = archives.archives.len() as u64;
    let (latest, failure) = match archives.try_last_archive() {
        Ok(archive) => (archive.time.timestamp(), None),
        Err(e) => (before.archives_latest_time, Some(e)),
    };
    Report {
        gauges: GaugeSet {
            archives_latest_time: latest,
            archives_total: gauge_value(count),
            chunks_total: gauge_value(stats.total_chunks),
            archives_compressed_size: gauge_value(stats.total_csize),
            archives_size: gauge_value(stats.total_size),
            chunks_deduplicated_total: gauge_value(stats.total_unique_chunks),
            archives_deduplicated_compressed_size: gauge_value(stats.unique_csize),
            archives_deduplicated_size: gauge_value(stats.unique_size),
        },
        saturation: Saturation {
            archives_total: exceeds_gauge(count),
            chunks_total: exceeds_gauge(stats.total_chunks),
            archives_compressed_size: exceeds_gauge(stats.total_csize),
            archives_size: exceeds_gauge(stats.total_size),
            chunks_deduplicated_total: exceeds_gauge(stats.total_unique_chunks),
            archives_deduplicated_compressed_size: exceeds_gauge(stats.unique_csize),
            archives_deduplicated_size: exceeds_gauge(stats.unique_size),
        },
        failure,
    }
}

} // verus!
