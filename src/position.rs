use vstd::prelude::*;
use crate::errors::ServiceError;
use crate::time::{UtcTime, elapsed_millis, millis_between};

verus! {

/// One stored snapshot of the satellite position feed.
pub struct IssEntry {
    pub id: i64,
    pub fetched_at: UtcTime,
    pub source_url: String,
    pub payload: serde_json::Value,
}

impl Clone for IssEntry {
    fn clone(&self) -> (r: IssEntry)
        ensures
            r == *self,
    {
        IssEntry {
            id: self.id,
            fetched_at: self.fetched_at,
            source_url: self.source_url.clone(),
            payload: self.payload.clone(),
        }
    }
}

/// The two newest snapshots, from which a trend is derived.
pub struct IssTrendPoints {
    pub newest: IssEntry,
    pub previous: IssEntry,
}

impl IssTrendPoints {
    /// Whole milliseconds from the previous snapshot to the newest, truncated
    /// toward zero.
    pub fn elapsed_millis(&self) -> (r: i64)
        requires
            self.previous.fetched_at.wf(),
            self.newest.fetched_at.wf(),
        ensures
            r as int == millis_between(self.previous.fetched_at, self.newest.fetched_at),
    {
        elapsed_millis(self.previous.fetched_at, self.newest.fetched_at)
    }
}

/// The position log is well formed when ids count up from one in append
/// order and every timestamp is well formed.
pub open spec fn log_wf(rows: Seq<IssEntry>) -> bool {
    &&& rows.len() < i64::MAX
    &&& forall|i: int| 0 <= i < rows.len() ==> (#[trigger] rows[i]).id == i + 1 && rows[i].fetched_at.wf()
}

/// The `limit` newest entries of `rows`, newest first.
pub open spec fn newest_entries(rows: Seq<IssEntry>, limit: int) -> Seq<IssEntry> {
    let n = if limit < 0 { 0 } else if limit < rows.len() { limit } else { rows.len() as int };
    Seq::new(n as nat, |i: int| rows[rows.len() - 1 - i])
}

/// The append-only position log.
pub struct IssRepo {
    rows: Vec<IssEntry>,
}

impl View for IssRepo {
    type V = Seq<IssEntry>;

    closed spec fn view(&self) -> Seq<IssEntry> {
        self.rows@
    }
}

impl IssRepo {
    pub open spec fn wf(&self) -> bool {
        log_wf(self@)
    }

    /// An empty log.
    pub fn new() -> (r: IssRepo)
        ensures
            r.wf(),
            r@ == Seq::<IssEntry>::empty(),
    {
        IssRepo { rows: Vec::new() }
    }

    /// Appends a snapshot and returns it; fails, leaving the log as it was,
    /// only when the ids are exhausted.
    pub fn insert_entry(&mut self, source_url: &str, payload: serde_json::Value, now: UtcTime) -> (r: Result<IssEntry, ServiceError>)
        requires
            old(self).wf(),
            now.wf(),
        ensures
            final(self).wf(),
            r is Ok <==> old(self)@.len() + 1 < i64::MAX,
            r matches Ok(e) ==> {
                &&& e.id == old(self)@.len() + 1
                &&& e.fetched_at == now
                &&& e.source_url@ == source_url@
                &&& e.payload == payload
                &&& final(self)@ == old(self)@.push(e)
            },
            r is Err ==> final(self)@ == old(self)@ && r == Err::<IssEntry, ServiceError>(ServiceError::StorageWrite),
    {
        if self.rows.len() as u64 >= 9_223_372_036_854_775_806u64 {
            return Err(ServiceError::StorageWrite);
        }
        let e = IssEntry {
            id: (self.rows.len() as u64 + 1) as i64,
            fetched_at: now,
            source_url: source_url.to_owned(),
            payload,
        };
        let out = e.clone();
        self.rows.push(e);
        Ok(out)
    }

    /// The newest entry, if any.
    pub fn last_entry(&self) -> (r: Option<IssEntry>)
        requires
            self.wf(),
        ensures
            self@.len() == 0 ==> r is None,
            self@.len() > 0 ==> r == Some(self@.last()),
    {
        let n = self.rows.len();
        if n == 0 {
            None
        } else {
            Some(self.rows[n - 1].clone())
        }
    }

    /// Up to `limit` entries, newest first; a negative limit gives none.
    pub fn last_points(&self, limit: i64) -> (r: Vec<IssEntry>)
        requires
            self.wf(),
        ensures
            r@ == newest_entries(self@, limit as int),
    {
        let n = self.rows.len();
        let take: usize = if limit < 0 {
            0
        } else if (limit as u64) < (n as u64) {
            limit as usize
        } else {
            n
        };
        let mut out: Vec<IssEntry> = Vec::new();
        let mut i: usize = 0;
        while i < take
            invariant
                n == self@.len(),
                take <= n,
                take == newest_entries(self@, limit as int).len(),
                i <= take,
                out@ =~= newest_entries(self@, limit as int).subrange(0, i as int),
            decreases take - i,
        {
            out.push(self.rows[n - 1 - i].clone());
            i = i + 1;
        }
        assert(out@ =~= newest_entries(self@, limit as int));
        out
    }
}

/// The position-feed service: one snapshot appended per successful fetch.
pub struct IssService {
    repo: IssRepo,
    url: String,
}

impl View for IssService {
    type V = Seq<IssEntry>;

    closed spec fn view(&self) -> Seq<IssEntry> {
        self.repo@
    }
}

/// The trend endpoints of a log: its two newest entries, when it has two.
pub open spec fn trend_points_of(rows: Seq<IssEntry>) -> Option<(IssEntry, IssEntry)> {
    if rows.len() < 2 {
        None
    } else {
        Some((rows[rows.len() - 2], rows[rows.len() - 1]))
    }
}

impl IssService {
    /// Ids count up from one in append order.
    pub open spec fn wf(&self) -> bool {
        log_wf(self@)
    }

    /// The address of the position provider.
    pub closed spec fn url_spec(&self) -> Seq<char> {
        self.url@
    }

    /// A service over an empty log, fetching from `url`.
    pub fn new(url: &str) -> (r: IssService)
        ensures
            r.wf(),
            r@ == Seq::<IssEntry>::empty(),
            r.url_spec() == url@,
    {
        IssService { repo: IssRepo::new(), url: url.to_owned() }
    }

    /// The address snapshots are fetched from.
    pub fn source_url(&self) -> (r: &str)
        ensures
            r@ == self.url_spec(),
    {
        self.url.as_str()
    }

    /// Stores what the provider returned (`None` when the call failed) as a
    /// new snapshot tagged with the provider's address. Taking `&mut self`
    /// makes fetch-and-store exclusive: two of them never overlap.
    pub fn fetch_and_store(&mut self, fetched: Option<serde_json::Value>, now: UtcTime) -> (r: Result<IssEntry, ServiceError>)
        requires
            old(self).wf(),
            now.wf(),
        ensures
            final(self).wf(),
            final(self).url_spec() == old(self).url_spec(),
            fetched is None ==> r == Err::<IssEntry, ServiceError>(ServiceError::UpstreamFetch) && final(self)@ == old(self)@,
            fetched is Some ==> (r is Ok <==> old(self)@.len() + 1 < i64::MAX),
            r matches Ok(e) ==> {
                &&& e.id == old(self)@.len() + 1
                &&& forall|i: int| 0 <= i < old(self)@.len() ==> (#[trigger] old(self)@[i]).id < e.id
                &&& e.fetched_at == now
                &&& e.source_url@ == old(self).url_spec()
                &&& Some(e.payload) == fetched
                &&& final(self)@ == old(self)@.push(e)
            },
            r is Err ==> final(self)@ == old(self)@,
    {
        match fetched {
            None => Err(ServiceError::UpstreamFetch),
            Some(payload) => self.repo.insert_entry(self.url.as_str(), payload, now),
        }
    }

    /// The on-demand fetch: the same operation as the timer's.
    pub fn trigger_fetch(&mut self, fetched: Option<serde_json::Value>, now: UtcTime) -> (r: Result<IssEntry, ServiceError>)
        requires
            old(self).wf(),
            now.wf(),
        ensures
            final(self).wf(),
            final(self).url_spec() == old(self).url_spec(),
            fetched is None ==> r == Err::<IssEntry, ServiceError>(ServiceError::UpstreamFetch) && final(self)@ == old(self)@,
            fetched is Some ==> (r is Ok <==> old(self)@.len() + 1 < i64::MAX),
            r matches Ok(e) ==> {
                &&& e.id == old(self)@.len() + 1
                &&& forall|i: int| 0 <= i < old(self)@.len() ==> (#[trigger] old(self)@[i]).id < e.id
                &&& e.fetched_at == now
                &&& e.source_url@ == old(self).url_spec()
                &&& Some(e.payload) == fetched
                &&& final(self)@ == old(self)@.push(e)
            },
            r is Err ==> final(self)@ == old(self)@,
    {
        self.fetch_and_store(fetched, now)
    }

    /// The newest snapshot, or `None` when the log is empty.
    pub fn last(&self) -> (r: Option<IssEntry>)
        requires
            self.wf(),
        ensures
            self@.len() == 0 ==> r is None,
            self@.len() > 0 ==> r == Some(self@.last()),
    {
        self.repo.last_entry()
    }

    /// The two newest snapshots, or `None` when fewer than two are stored.
    pub fn trend(&self) -> (r: Option<IssTrendPoints>)
        requires
            self.wf(),
        ensures
            trend_points_of(self@) is None ==> r is None,
            trend_points_of(self@) matches Some((p, n)) ==> r matches Some(t) && t.previous == p && t.newest == n,
            r matches Some(t) ==> t.previous.fetched_at.wf() && t.newest.fetched_at.wf(),
    {
        let mut rows = self.repo.last_points(2);
        if rows.len() < 2 {
            return None;
        }
        let previous = rows.pop().unwrap();
        let newest = rows.pop().unwrap();
        Some(IssTrendPoints { newest, previous })
    }
}

} // verus!

verus! {

/// Two successful fetches, one after the other, append exactly two
/// snapshots in call order: the first call's entry, then the second's, with
/// increasing ids.
pub proof fn lemma_fetches_append_in_call_order(
    log0: Seq<IssEntry>,
    first: IssEntry,
    second: IssEntry,
    log1: Seq<IssEntry>,
    log2: Seq<IssEntry>,
)
    requires
        log_wf(log0),
        first.id == log0.len() + 1,
        log1 == log0.push(first),
        second.id == log1.len() + 1,
        log2 == log1.push(second),
    ensures
        log2.len() == log0.len() + 2,
        log2.subrange(0, log0.len() as int) == log0,
        log2[log0.len() as int] == first,
        log2[log0.len() + 1int] == second,
        first.id < second.id,
{
    assert(log2.subrange(0, log0.len() as int) =~= log0);
}

/// With fewer than two snapshots stored there is no trend pair: the trend is
/// the neutral one.
pub proof fn lemma_trend_needs_two_points(rows: Seq<IssEntry>)
    requires
        rows.len() < 2,
    ensures
        trend_points_of(rows) is None,
{
}

} // verus!
