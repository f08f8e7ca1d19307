use borg_exporter::borg::datetime_format::deserialize;
use borg_exporter::borg::{
    Archive, ArchivesList, BorgError, Cache, CacheStats, Encryption, Info, Repository,
};
use borg_exporter::metrics::{
    exceeds_gauge, gauge_value, report, Gauge, GaugeSet, REPOSITORY_LABEL,
};

fn sample_repository() -> Repository {
    Repository {
        id: "0123abcd".to_string(),
        last_modified: deserialize("2023-06-15T12:31:00.000000").unwrap(),
        location: "/srv/repo".to_string(),
    }
}

fn sample_archive(time: &str) -> Archive {
    Archive {
        archive: "a".to_string(),
        barchive: "a".to_string(),
        id: "1".to_string(),
        name: "a".to_string(),
        start: deserialize(time).unwrap(),
        time: deserialize(time).unwrap(),
    }
}

fn sample_list(times: &[&str]) -> ArchivesList {
    ArchivesList {
        archives: times.iter().map(|t| sample_archive(t)).collect(),
        encryption: Encryption { mode: "none".to_string() },
        repository: sample_repository(),
    }
}

fn sample_info(stats: CacheStats) -> Info {
    Info {
        cache: Cache { path: "/root/.cache/borg/0123abcd".to_string(), stats },
        encryption: Encryption { mode: "none".to_string() },
        repository: sample_repository(),
        security_dir: "/root/.config/borg/security/0123abcd".to_string(),
    }
}

fn fixed_stats() -> CacheStats {
    CacheStats {
        total_chunks: 1000,
        total_csize: 500_000,
        total_size: 2_000_000,
        total_unique_chunks: 300,
        unique_csize: 150_000,
        unique_size: 600_000,
    }
}

#[test]
fn gauge_value_keeps_what_fits() {
    assert_eq!(gauge_value(0), 0);
    assert_eq!(gauge_value(1000), 1000);
    assert_eq!(gauge_value(i64::MAX as u64), i64::MAX);
    assert_eq!(gauge_value(i64::MAX as u64 - 1), i64::MAX - 1);
}

#[test]
fn gauge_value_saturates_and_never_wraps() {
    assert_eq!(gauge_value(i64::MAX as u64 + 1), i64::MAX);
    assert_eq!(gauge_value(u64::MAX), i64::MAX);
    assert_eq!(gauge_value(1 << 63), i64::MAX);
    assert!(gauge_value(u64::MAX) >= 0);
}

#[test]
fn exceeds_gauge_starts_above_the_signed_maximum() {
    assert!(!exceeds_gauge(0));
    assert!(!exceeds_gauge(i64::MAX as u64));
    assert!(exceeds_gauge(i64::MAX as u64 + 1));
    assert!(exceeds_gauge(u64::MAX));
}

#[test]
fn gauges_start_at_zero() {
    let gauges = GaugeSet::new();
    for g in Gauge::all() {
        assert_eq!(gauges.get(g), 0);
    }
}

#[test]
fn all_lists_the_eight_gauges_once() {
    let all = Gauge::all();
    assert_eq!(
        all,
        vec![
            Gauge::ArchivesLatestTime,
            Gauge::ArchivesTotal,
            Gauge::ChunksTotal,
            Gauge::ArchivesCompressedSize,
            Gauge::ArchivesSize,
            Gauge::ChunksDeduplicatedTotal,
            Gauge::ArchivesDeduplicatedCompressedSize,
            Gauge::ArchivesDeduplicatedSize,
        ]
    );
}

#[test]
fn metric_names_and_help() {
    let expected = [
        ("borg_archives_latest_time", "Timestamp of the latest archive"),
        ("borg_archives_total", "Number of available archives"),
        ("borg_chunks_total", "Number of chunks"),
        ("borg_archives_compressed_size", "Compressed size of all archives"),
        ("borg_archives_size", "Original size of all archives"),
        ("borg_chunks_deduplicated_total", "Number of unique chunks"),
        (
            "borg_archives_deduplicated_compressed_size",
            "Compressed, deduplicated size of all archives",
        ),
        ("borg_archives_deduplicated_size", "Deduplicated size of all archives"),
    ];
    for (g, (name, help)) in Gauge::all().iter().zip(expected) {
        assert_eq!(g.metric_name(), name);
        assert_eq!(g.help(), help);
    }
    assert_eq!(REPOSITORY_LABEL, "repository");
}

#[test]
fn get_reads_the_field_of_the_gauge() {
    let gauges = GaugeSet {
        archives_latest_time: 1,
        archives_total: 2,
        chunks_total: 3,
        archives_compressed_size: 4,
        archives_size: 5,
        chunks_deduplicated_total: 6,
        archives_deduplicated_compressed_size: 7,
        archives_deduplicated_size: 8,
    };
    let read: Vec<i64> = Gauge::all().iter().map(|g| gauges.get(*g)).collect();
    assert_eq!(read, vec![1, 2, 3, 4, 5, 6, 7, 8]);
}

#[test]
fn report_reads_the_six_counters() {
    let list = sample_list(&["2023-01-01T00:00:00.000000"]);
    let r = report(&GaugeSet::new(), &list, &sample_info(fixed_stats()));
    assert_eq!(r.gauges.chunks_total, 1000);
    assert_eq!(r.gauges.archives_compressed_size, 500_000);
    assert_eq!(r.gauges.archives_size, 2_000_000);
    assert_eq!(r.gauges.chunks_deduplicated_total, 300);
    assert_eq!(r.gauges.archives_deduplicated_compressed_size, 150_000);
    assert_eq!(r.gauges.archives_deduplicated_size, 600_000);
    assert_eq!(r.failure, None);
    for g in Gauge::all() {
        assert!(!r.saturation.of(g));
    }
}

#[test]
fn report_counts_the_archives() {
    let list = sample_list(&[
        "2023-01-01T00:00:00.000000",
        "2023-02-01T00:00:00.000000",
        "2023-03-01T00:00:00.000000",
        "2023-04-01T00:00:00.000000",
        "2023-05-01T00:00:00.000000",
    ]);
    let r = report(&GaugeSet::new(), &list, &sample_info(fixed_stats()));
    assert_eq!(r.gauges.archives_total, 5);
}

#[test]
fn report_reads_the_time_of_the_latest_archive() {
    let list = sample_list(&[
        "2023-01-01T00:00:00.000000",
        "2023-06-15T12:30:00.500000",
        "2023-03-01T00:00:00.000000",
    ]);
    let r = report(&GaugeSet::new(), &list, &sample_info(fixed_stats()));
    assert_eq!(r.gauges.archives_latest_time, 1_686_832_200);
    assert_eq!(r.gauges.archives_total, 3);
}

#[test]
fn report_saturates_counters_beyond_the_gauge() {
    let stats = CacheStats {
        total_chunks: u64::MAX,
        total_csize: i64::MAX as u64 + 1,
        total_size: i64::MAX as u64,
        total_unique_chunks: 300,
        unique_csize: 1 << 63,
        unique_size: 0,
    };
    let list = sample_list(&["2023-01-01T00:00:00.000000"]);
    let r = report(&GaugeSet::new(), &list, &sample_info(stats));
    assert_eq!(r.gauges.chunks_total, i64::MAX);
    assert_eq!(r.gauges.archives_compressed_size, i64::MAX);
    assert_eq!(r.gauges.archives_size, i64::MAX);
    assert_eq!(r.gauges.chunks_deduplicated_total, 300);
    assert_eq!(r.gauges.archives_deduplicated_compressed_size, i64::MAX);
    assert_eq!(r.gauges.archives_deduplicated_size, 0);
    for g in Gauge::all() {
        assert!(r.gauges.get(g) >= 0);
    }
    assert!(r.saturation.chunks_total);
    assert!(r.saturation.archives_compressed_size);
    assert!(!r.saturation.archives_size);
    assert!(!r.saturation.chunks_deduplicated_total);
    assert!(r.saturation.archives_deduplicated_compressed_size);
    assert!(!r.saturation.archives_deduplicated_size);
    assert!(!r.saturation.archives_total);
    assert!(r.saturation.of(Gauge::ChunksTotal));
    assert!(!r.saturation.of(Gauge::ArchivesLatestTime));
}

#[test]
fn report_without_archives_keeps_the_latest_time() {
    let before = GaugeSet {
        archives_latest_time: 1_672_531_200,
        archives_total: 4,
        chunks_total: 1,
        archives_compressed_size: 1,
        archives_size: 1,
        chunks_deduplicated_total: 1,
        archives_deduplicated_compressed_size: 1,
        archives_deduplicated_size: 1,
    };
    let r = report(&before, &sample_list(&[]), &sample_info(fixed_stats()));
    assert_eq!(r.failure, Some(BorgError::EmptyResult));
    assert_eq!(r.gauges.archives_latest_time, 1_672_531_200);
    assert_eq!(r.gauges.archives_total, 0);
    assert_eq!(r.gauges.chunks_total, 1000);
    assert_eq!(r.gauges.archives_deduplicated_size, 600_000);
}
