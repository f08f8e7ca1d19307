//! The update cycle of the exporter, as a state machine.
//!
//! The program that serves the metrics waits for a scrape, runs the tool and
//! decodes its output; this module decides what happens in between. Each
//! outside happening is an [`Event`]; [`Publisher::step`] answers it with the
//! next state and the [`Action`] to perform. One cycle asks for the archive
//! list, then for the repository information, and only with both in hand
//! moves the gauges, all at once. A failure on the way ends the cycle and
//! leaves every gauge as it was.

use vstd::prelude::*;
use crate::borg::{ArchivesList, BorgError, Info};
use crate::metrics::{is_report_of, report, updated_reading, Gauge, GaugeSet, Report};

verus! {

/// Where the cycle stands.
#[derive(Clone, Debug, PartialEq, Eq)]
pub enum Phase {
    /// No cycle runs; the next scrape starts one.
    Idle,
    /// The archive list has been asked for.
    AwaitingArchives,
    /// The archive list is here and the repository information has been
    /// asked for.
    AwaitingInfo(ArchivesList),
}

/// What happened outside.
#[derive(Debug, PartialEq, Eq)]
pub enum Event {
    /// A scrape request arrived.
    ScrapeRequested,
    /// The attempt to get the archive list has ended.
    ArchivesRetrieved(Result<ArchivesList, BorgError>),
    /// The attempt to get the repository information has ended.
    InfoRetrieved(Result<Info, BorgError>),
}

/// What to do next.
#[derive(Clone, Copy, Debug, PartialEq, Eq, Structural)]
pub enum Action {
    /// Get the archive list and come back with `ArchivesRetrieved`.
    RetrieveArchives,
    /// Get the repository information and come back with `InfoRetrieved`.
    RetrieveInfo,
    /// The cycle succeeded: set the gauges as reported, answer the scrape and
    /// wait for the next one.
    Publish(Report),
    /// The cycle failed: leave the gauges, report the failure, answer the
    /// scrape and wait for the next one.
    Abort(BorgError),
    /// The event does not belong to this point of the cycle: nothing to do.
    Ignore,
}

/// The gauges and the point of the cycle.
#[derive(Clone, Debug, PartialEq, Eq)]
pub struct Publisher {
    pub gauges: GaugeSet,
    pub phase: Phase,
}

impl Publisher {
    /// Whether `(next, action)` is how the publisher answers `event`.
    pub open spec fn steps_to(self, event: Event, next: Publisher, action: Action) -> bool {
        match (self.phase, event) {
            (Phase::Idle, Event::ScrapeRequested) => {
                &&& next.gauges == self.gauges
                &&& next.phase == Phase::AwaitingArchives
                &&& action == Action::RetrieveArchives
            },
            (Phase::AwaitingArchives, Event::ArchivesRetrieved(Ok(archives))) => {
                &&& next.gauges == self.gauges
                &&& next.phase == Phase::AwaitingInfo(archives)
                &&& action == Action::RetrieveInfo
            },
            (Phase::AwaitingArchives, Event::ArchivesRetrieved(Err(e))) => {
                &&& next.gauges == self.gauges
                &&& next.phase == Phase::Idle
                &&& action == Action::Abort(e)
            },
            (Phase::AwaitingInfo(archives), Event::InfoRetrieved(Ok(info))) => {
                &&& action matches Action::Publish(r)
                &&& is_report_of(r, self.gauges, archives, info)
                &&& next.gauges == r.gauges
                &&& next.phase == Phase::Idle
            },
            (Phase::AwaitingInfo(_), Event::InfoRetrieved(Err(e))) => {
                &&& next.gauges == self.gauges
                &&& next.phase == Phase::Idle
                &&& action == Action::Abort(e)
            },
            _ => {
                &&& next == self
                &&& action == Action::Ignore
            },
        }
    }

    /// The publisher at start-up: every gauge at zero, no cycle running.
    pub fn new() -> (publisher: Publisher)
        ensures
            publisher.phase == Phase::Idle,
            forall|g: Gauge| publisher.gauges.reading(g) == 0,
    {
        Publisher { gauges: GaugeSet::new(), phase: Phase::Idle }
    }

    /// Answers one event.
    pub fn step(self, event: Event) -> (answer: (Publisher, Action))
        ensures
            self.steps_to(event, answer.0, answer.1),
            !(answer.1 is Publish) ==> answer.0.gauges == self.gauges,
    {
        let Publisher { gauges, phase } = self;
        match (phase, event) {
            (Phase::Idle, Event::ScrapeRequested) => {
                (Publisher { gauges, phase: Phase::AwaitingArchives }, Action::RetrieveArchives)
            },
            (Phase::AwaitingArchives, Event::ArchivesRetrieved(Ok(archives))) => {
                (Publisher { gauges, phase: Phase::AwaitingInfo(archives) }, Action::RetrieveInfo)
            },
            (Phase::AwaitingArchives, Event::ArchivesRetrieved(Err(e))) => {
                (Publisher { gauges, phase: Phase::Idle }, Action::Abort(e))
            },
            (Phase::AwaitingInfo(archives), Event::InfoRetrieved(Ok(info))) => {
                let r = report(&gauges, &archives, &info);
                (Publisher { gauges: r.gauges, phase: Phase::Idle }, Action::Publish(r))
            },
            (Phase::AwaitingInfo(_), Event::InfoRetrieved(Err(e))) => {
                (Publisher { gauges, phase: Phase::Idle }, Action::Abort(e))
            },
            (phase, _) => (Publisher { gauges, phase }, Action::Ignore),
        }
    }
}

/// The gauges move only when a report is published: whatever else the
/// publisher answers, every gauge reads what it read before.
pub proof fn lemma_gauges_move_only_on_publish(
    before: Publisher,
    event: Event,
    after: Publisher,
    action: Action,
)
    requires
        before.steps_to(event, after, action),
        !(action is Publish),
    ensures
        after.gauges == before.gauges,
{
}

/// A retrieval that fails ends the cycle at once: the failure is reported,
/// no further retrieval is asked for, and every gauge reads what it read
/// before. This holds whatever the failure is: a tool that did not start,
/// output that is not text, text that is not the expected document.
pub proof fn lemma_failed_retrieval_aborts(
    before: Publisher,
    event: Event,
    after: Publisher,
    action: Action,
    failure: BorgError,
)
    requires
        before.steps_to(event, after, action),
        (before.phase is AwaitingArchives && event == Event::ArchivesRetrieved(
            Err::<ArchivesList, BorgError>(failure),
        )) || (before.phase is AwaitingInfo && event == Event::InfoRetrieved(
            Err::<Info, BorgError>(failure),
        )),
    ensures
        action == Action::Abort(failure),
        after.phase == Phase::Idle,
        after.gauges == before.gauges,
{
}

/// The repository information is asked for only once the archive list is
/// here.
pub proof fn lemma_info_follows_archives(
    before: Publisher,
    event: Event,
    after: Publisher,
    action: Action,
)
    requires
        before.steps_to(event, after, action),
        action == Action::RetrieveInfo,
    ensures
        before.phase is AwaitingArchives,
        event matches Event::ArchivesRetrieved(Ok(archives)) && after.phase == Phase::AwaitingInfo(
            archives,
        ),
{
}

/// A cycle in which both retrievals succeed ends with every gauge reading
/// its source in the two documents.
pub proof fn lemma_successful_cycle(
    start: Publisher,
    archives: ArchivesList,
    info: Info,
    asked: Publisher,
    listed: Publisher,
    done: Publisher,
    first: Action,
    second: Action,
    third: Action,
)
    requires
        start.phase == Phase::Idle,
        start.steps_to(Event::ScrapeRequested, asked, first),
        asked.steps_to(
            Event::ArchivesRetrieved(Ok::<ArchivesList, BorgError>(archives)),
            listed,
            second,
        ),
        listed.steps_to(Event::InfoRetrieved(Ok::<Info, BorgError>(info)), done, third),
    ensures
        first == Action::RetrieveArchives,
        second == Action::RetrieveInfo,
        third matches Action::Publish(r) && r.gauges == done.gauges,
        done.phase == Phase::Idle,
        forall|g: Gauge| #[trigger]
            done.gauges.reading(g) == updated_reading(start.gauges, g, archives, info),
{
}

} // verus!
