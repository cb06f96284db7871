use vstd::prelude::*;
use crate::errors::ServiceError;
use crate::sources::{Source, source_name};

verus! {

/// The periodic jobs, each on its own timer.
#[derive(Clone, Copy, Debug, PartialEq, Eq, Structural)]
pub enum Job {
    /// Fetch and store a position snapshot.
    IssFetch,
    /// Sync the catalog.
    OsdrSync,
    /// Refresh the picture of the day.
    SpaceApod,
    /// Refresh the near-Earth-object feed.
    SpaceNeo,
    /// Refresh both solar-event feeds.
    SpaceDonki,
    /// Refresh the next launch.
    SpaceSpacex,
}

pub open spec fn job_name(j: Job) -> Seq<char> {
    match j {
        Job::IssFetch => "iss_fetch"@,
        Job::OsdrSync => "osdr_sync"@,
        Job::SpaceApod => "space_apod"@,
        Job::SpaceNeo => "space_neo"@,
        Job::SpaceDonki => "space_donki"@,
        Job::SpaceSpacex => "space_spacex"@,
    }
}

/// The cache sources a job refreshes; none for the position and catalog jobs.
pub open spec fn job_sources(j: Job) -> Seq<Source> {
    match j {
        Job::SpaceApod => seq![Source::Apod],
        Job::SpaceNeo => seq![Source::Neo],
        Job::SpaceDonki => seq![Source::Flr, Source::Cme],
        Job::SpaceSpacex => seq![Source::Spacex],
        _ => Seq::empty(),
    }
}

pub open spec fn all_jobs() -> Seq<Job> {
    seq![Job::IssFetch, Job::OsdrSync, Job::SpaceApod, Job::SpaceNeo, Job::SpaceDonki, Job::SpaceSpacex]
}

impl Job {
    /// The job's name in logs.
    pub fn name(&self) -> (r: String)
        ensures
            r@ == job_name(*self),
    {
        match self {
            Job::IssFetch => String::from_str("iss_fetch"),
            Job::OsdrSync => String::from_str("osdr_sync"),
            Job::SpaceApod => String::from_str("space_apod"),
            Job::SpaceNeo => String::from_str("space_neo"),
            Job::SpaceDonki => String::from_str("space_donki"),
            Job::SpaceSpacex => String::from_str("space_spacex"),
        }
    }

    /// The names of the cache sources the job refreshes, in order.
    pub fn source_names(&self) -> (r: Vec<String>)
        ensures
            r@.len() == job_sources(*self).len(),
            forall|i: int| 0 <= i < r@.len() ==> (#[trigger] r@[i])@ == source_name(job_sources(*self)[i]),
    {
        match self {
            Job::SpaceApod => vec![Source::Apod.name()],
            Job::SpaceNeo => vec![Source::Neo.name()],
            Job::SpaceDonki => vec![Source::Flr.name(), Source::Cme.name()],
            Job::SpaceSpacex => vec![Source::Spacex.name()],
            _ => Vec::new(),
        }
    }

    /// Every job, each of which gets one timer.
    pub fn all() -> (r: Vec<Job>)
        ensures
            r@ == all_jobs(),
    {
        let r = vec![Job::IssFetch, Job::OsdrSync, Job::SpaceApod, Job::SpaceNeo, Job::SpaceDonki, Job::SpaceSpacex];
        assert(r@ =~= all_jobs());
        r
    }
}

/// The interval of each job's timer, in seconds.
#[derive(Clone, Copy, Debug, PartialEq, Eq, Structural)]
pub struct SchedulerConfig {
    pub osdr: u64,
    pub iss: u64,
    pub apod: u64,
    pub neo: u64,
    pub donki: u64,
    pub spacex: u64,
}

pub open spec fn interval_of(c: SchedulerConfig, j: Job) -> u64 {
    match j {
        Job::IssFetch => c.iss,
        Job::OsdrSync => c.osdr,
        Job::SpaceApod => c.apod,
        Job::SpaceNeo => c.neo,
        Job::SpaceDonki => c.donki,
        Job::SpaceSpacex => c.spacex,
    }
}

impl SchedulerConfig {
    /// The interval of `job`'s timer, in seconds.
    pub fn interval_secs(&self, job: Job) -> (r: u64)
        ensures
            r == interval_of(*self, job),
    {
        match job {
            Job::IssFetch => self.iss,
            Job::OsdrSync => self.osdr,
            Job::SpaceApod => self.apod,
            Job::SpaceNeo => self.neo,
            Job::SpaceDonki => self.donki,
            Job::SpaceSpacex => self.spacex,
        }
    }
}

/// What a job's timer does after a cycle: record the failure, if any, under
/// the job's name, then sleep for the job's interval and run again.
pub struct CycleAction {
    pub job: Job,
    pub failure: Option<ServiceError>,
    pub sleep_secs: u64,
}

/// The decision after one cycle of `job` ended with `outcome`. A failure is
/// recorded and never stops the timer; there is no catch-up for a slow cycle.
pub fn after_cycle(config: &SchedulerConfig, job: Job, outcome: Result<(), ServiceError>) -> (r: CycleAction)
    ensures
        r.job == job,
        r.sleep_secs == interval_of(*config, job),
        outcome matches Err(e) ==> r.failure == Some(e),
        outcome is Ok ==> r.failure is None,
{
    let failure = match outcome {
        Ok(()) => None,
        Err(e) => Some(e),
    };
    CycleAction { job, failure, sleep_secs: config.interval_secs(job) }
}

} // verus!
