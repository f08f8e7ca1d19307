//! The repository model: what Borg reports about a repository, how the tool
//! is asked for it, and which archive counts as the latest.

pub mod calendar;
pub mod datetime_format;
pub mod text;
pub mod timestamp;

use vstd::prelude::*;
use vstd::utf8::{decode_utf8, valid_utf8};
use crate::borg::text::text_of_bytes;
use crate::borg::timestamp::{lemma_unix_seconds_in_order, CivilTime, Timestamp};

verus! {

/// What can go wrong between a scrape request and the gauges.
#[derive(Clone, Copy, Debug, PartialEq, Eq, Structural)]
pub enum BorgError {
    /// The tool could not be started.
    ProcessExecution,
    /// The tool's output is not UTF-8 text.
    Encoding,
    /// The tool's output is text, but not the expected JSON document.
    Decode,
    /// The latest archive was asked for and the repository has none.
    EmptyResult,
}

/// The answer to `borg list --json`.
#[derive(Clone, Debug, PartialEq, Eq)]
pub struct ArchivesList {
    /// The archives in the order in which the tool lists them.
    pub archives: Vec<Archive>,
    pub encryption: Encryption,
    pub repository: Repository,
}

/// The answer to `borg info --json`.
#[derive(Clone, Debug, PartialEq, Eq)]
pub struct Info {
    pub cache: Cache,
    pub encryption: Encryption,
    pub repository: Repository,
    pub security_dir: String,
}

#[derive(Clone, Debug, PartialEq, Eq)]
pub struct Cache {
    pub path: String,
    pub stats: CacheStats,
}

/// The six counters of the chunk cache. Nothing relates them here.
#[derive(Clone, Copy, Debug, PartialEq, Eq, Structural)]
pub struct CacheStats {
    pub total_chunks: u64,
    pub total_csize: u64,
    pub total_size: u64,
    pub total_unique_chunks: u64,
    pub unique_csize: u64,
    pub unique_size: u64,
}

/// One backup snapshot.
#[derive(Clone, Debug, PartialEq, Eq)]
pub struct Archive {
    pub archive: String,
    pub barchive: String,
    pub id: String,
    pub name: String,
    pub start: Timestamp,
    pub time: Timestamp,
}

#[derive(Clone, Debug, PartialEq, Eq)]
pub struct Encryption {
    pub mode: String,
}

#[derive(Clone, Debug, PartialEq, Eq)]
pub struct Repository {
    pub id: String,
    pub last_modified: Timestamp,
    pub location: String,
}

/// Whether the instant at index `i` is the latest of `times`: none is later,
/// and of several that are equally late it is the last.
pub open spec fn is_latest(times: Seq<CivilTime>, i: int) -> bool {
    &&& 0 <= i < times.len()
    &&& forall|j: int| 0 <= j < times.len() ==> !times[i].precedes(#[trigger] times[j])
    &&& forall|j: int| i < j < times.len() ==> (#[trigger] times[j]).precedes(times[i])
}

/// Being no earlier is transitive.
pub proof fn lemma_not_earlier_transitive(a: CivilTime, b: CivilTime, c: CivilTime)
    requires
        !a.precedes(b),
        !b.precedes(c),
    ensures
        !a.precedes(c),
{
}

/// Where there is an instant there is a latest one.
pub proof fn lemma_latest_exists(times: Seq<CivilTime>)
    requires
        times.len() > 0,
    ensures
        exists|i: int| is_latest(times, i),
    decreases times.len(),
{
    if times.len() == 1 {
        assert(is_latest(times, 0));
    } else {
        let front = times.drop_last();
        let last = times.len() - 1;
        lemma_latest_exists(front);
        let best = choose|i: int| is_latest(front, i);
        assert(forall|j: int| 0 <= j < front.len() ==> front[j] == times[j]);
        if times[last].precedes(times[best]) {
            assert forall|j: int| 0 <= j < times.len() implies !times[best].precedes(
                #[trigger] times[j],
            ) by {
                if j < last {
                    assert(!front[best].precedes(front[j]));
                }
            }
            assert forall|j: int| best < j < times.len() implies (#[trigger] times[j]).precedes(
                times[best],
            ) by {
                if j < last {
                    assert(front[j].precedes(front[best]));
                }
            }
            assert(is_latest(times, best));
        } else {
            assert forall|j: int| 0 <= j < times.len() implies !times[last].precedes(
                #[trigger] times[j],
            ) by {
                if j < last {
                    assert(!front[best].precedes(front[j]));
                    lemma_not_earlier_transitive(times[last], times[best], times[j]);
                }
            }
            assert(is_latest(times, last));
        }
    }
}

/// At most one index is the latest.
pub proof fn lemma_latest_unique(times: Seq<CivilTime>, i: int, j: int)
    requires
        is_latest(times, i),
        is_latest(times, j),
    ensures
        i == j,
{
    if i < j {
        assert(times[j].precedes(times[i]));
        assert(!times[j].precedes(times[i]));
    } else if j < i {
        assert(times[i].precedes(times[j]));
        assert(!times[i].precedes(times[j]));
    }
}

/// The latest instant has the greatest Unix time.
pub proof fn lemma_latest_has_greatest_unix_time(times: Seq<CivilTime>, i: int, j: int)
    requires
        is_latest(times, i),
        0 <= j < times.len(),
        times[i].is_valid(),
        times[j].is_valid(),
    ensures
        times[j].unix_seconds() <= times[i].unix_seconds(),
{
    assert(!times[i].precedes(times[j]));
    if times[j].precedes(times[i]) {
        lemma_unix_seconds_in_order(times[j], times[i]);
    } else {
        assert(times[i] == times[j]);
    }
}

impl ArchivesList {
    /// The `time` of each archive, in order.
    pub open spec fn times(&self) -> Seq<CivilTime> {
        Seq::new(self.archives@.len(), |i: int| self.archives@[i].time@)
    }

    /// The index of the latest archive, where there is an archive.
    pub open spec fn latest_index(&self) -> int {
        choose|i: int| is_latest(self.times(), i)
    }

    /// The arguments that make the tool list the archives of `repository`.
    pub fn arguments(repository: &str) -> (args: Vec<String>)
        ensures
            args@.len() == 3,
            args@[0]@ == "list"@,
            args@[1]@ == "--json"@,
            args@[2]@ == repository@,
    {
        let mut args: Vec<String> = Vec::new();
        args.push("list".to_owned());
        args.push("--json".to_owned());
        args.push(repository.to_owned());
        args
    }

    /// The position of the latest archive.
    pub fn last_archive_index(&self) -> (latest: usize)
        requires
            self.archives@.len() > 0,
        ensures
            latest == self.latest_index(),
            is_latest(self.times(), latest as int),
    {
        let ghost times = self.times();
        let mut best: usize = 0;
        let mut i: usize = 1;
        while i < self.archives.len()
            invariant
                1 <= i <= self.archives@.len(),
                best < i,
                times == self.times(),
                forall|j: int| 0 <= j < i ==> !times[best as int].precedes(#[trigger] times[j]),
                forall|j: int| best < j < i ==> (#[trigger] times[j]).precedes(times[best as int]),
            decreases self.archives@.len() - i,
        {
            if !self.archives[i].time.precedes(&self.archives[best].time) {
                proof {
                    assert forall|j: int| 0 <= j < i + 1 implies !times[i as int].precedes(
                        #[trigger] times[j],
                    ) by {
                        if j < i {
                            lemma_not_earlier_transitive(times[i as int], times[best as int], times[j]);
                        }
                    }
                }
                best = i;
            }
            i += 1;
        }
        proof {
            assert(is_latest(times, best as int));
            lemma_latest_unique(times, best as int, self.latest_index());
        }
        best
    }

    /// The latest archive: the one with the greatest `time`, and of several
    /// with that `time` the one listed last.
    pub fn last_archive(&self) -> (latest: &Archive)
        requires
            self.archives@.len() > 0,
        ensures
            is_latest(self.times(), self.latest_index()),
            *latest == self.archives@[self.latest_index()],
    {
        let at = self.last_archive_index();
        &self.archives[at]
    }

    /// The latest archive, or `EmptyResult` where the list has none.
    pub fn try_last_archive(&self) -> (latest: Result<&Archive, BorgError>)
        ensures
            self.archives@.len() == 0 <==> latest == Err::<&Archive, BorgError>(
                BorgError::EmptyResult,
            ),
            self.archives@.len() > 0 <==> latest is Ok,
            latest matches Ok(a) ==> is_latest(self.times(), self.latest_index()) && *a
                == self.archives@[self.latest_index()],
    {
        if self.archives.len() == 0 {
            Err(BorgError::EmptyResult)
        } else {
            Ok(self.last_archive())
        }
    }
}

impl Info {
    /// The arguments that make the tool report on `repository`. The remote
    /// side is always asked for `borg1`.
    pub fn arguments(repository: &str) -> (args: Vec<String>)
        ensures
            args@.len() == 4,
            args@[0]@ == "info"@,
            args@[1]@ == "--json"@,
            args@[2]@ == "--remote-path=borg1"@,
            args@[3]@ == repository@,
    {
        let mut args: Vec<String> = Vec::new();
        args.push("info".to_owned());
        args.push("--json".to_owned());
        args.push("--remote-path=borg1".to_owned());
        args.push(repository.to_owned());
        args
    }
}

/// The text that the tool wrote to its standard output, or `Encoding` where
/// the bytes are not UTF-8.
pub fn output_text(stdout: Vec<u8>) -> (text: Result<String, BorgError>)
    ensures
        valid_utf8(stdout@) <==> text is Ok,
        text matches Ok(t) ==> t@ == decode_utf8(stdout@),
        text matches Err(e) ==> e == BorgError::Encoding,
{
    match text_of_bytes(stdout) {
        Some(t) => Ok(t),
        None => Err(BorgError::Encoding),
    }
}

} // verus!
