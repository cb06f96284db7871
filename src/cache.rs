use vstd::prelude::*;
use crate::catalog::OsdrService;
use crate::errors::ServiceError;
use crate::position::{IssEntry, IssService};
use crate::sources::{
    Source, all_sources, normal_name, normalize_name, source_name, source_named, window_width,
};
use crate::time::UtcTime;

verus! {

/// A name for the `YYYY-MM-DD` text chrono writes for the date with the
/// given day number (days from the first day of the common era, that day
/// being one).
pub uninterp spec fn iso_date_of(day: i32) -> Seq<char>;

/// Day number of chrono's `NaiveDate::MIN`, the first day of year -262143.
pub const MIN_DAY: i32 = -95_746_129;

/// Day number of chrono's `NaiveDate::MAX`, the last day of year 262142.
pub const MAX_DAY: i32 = 95_745_399;

/// Relies on chrono's `NaiveDate::from_num_days_from_ce_opt`, which gives a
/// date exactly for the day numbers from `NaiveDate::MIN` to
/// `NaiveDate::MAX`, and on the `Display` of `NaiveDate`.
#[verifier::external_body]
fn iso_date(day: i32) -> (r: Option<String>)
    ensures
        r is Some <==> MIN_DAY <= day <= MAX_DAY,
        r matches Some(s) ==> s@ == iso_date_of(day),
{
    match chrono::NaiveDate::from_num_days_from_ce_opt(day) {
        Some(d) => Some(d.to_string()),
        None => None,
    }
}

/// Whether both ends of the window of `w` days ending on `today` are dates
/// that chrono can write.
pub open spec fn window_in_range(today: i32, w: u32) -> bool {
    MIN_DAY <= today - w && today <= MAX_DAY
}

/// The calendar window `[today - days, today]`, as the provider wants it.
pub struct DateWindow {
    pub start: String,
    pub end: String,
}

/// One provider call of a refresh: the source and, for the feeds that take
/// one, the date window.
pub struct FetchRequest {
    pub source: Source,
    pub window: Option<DateWindow>,
}

/// Whether `q` is the provider call for `s` on the day `today`.
pub open spec fn request_for(q: FetchRequest, s: Source, today: i32) -> bool {
    &&& q.source == s
    &&& match window_width(s) {
        None => q.window is None,
        Some(w) => q.window matches Some(win) && today - w >= i32::MIN
            && win.start@ == iso_date_of((today - w) as i32) && win.end@ == iso_date_of(today),
    }
}

/// The calendar window of `days` days ending on the day `today`.
pub fn date_window(days: u32, today: i32) -> (r: Option<DateWindow>)
    ensures
        r is Some <==> window_in_range(today, days),
        r matches Some(win) ==> today - days >= i32::MIN
            && win.start@ == iso_date_of((today - days) as i32) && win.end@ == iso_date_of(today),
{
    let start: i64 = today as i64 - days as i64;
    if start < i32::MIN as i64 {
        return None;
    }
    match (iso_date(start as i32), iso_date(today)) {
        (Some(s), Some(e)) => Some(DateWindow { start: s, end: e }),
        _ => None,
    }
}

/// The provider call that refreshes `source` on the day `today`; `None` only
/// where chrono cannot write a date of the window.
pub fn request_for_source(source: Source, today: i32) -> (r: Option<FetchRequest>)
    ensures
        r matches Some(q) ==> request_for(q, source, today),
        r is Some <==> match window_width(source) {
            None => true,
            Some(w) => window_in_range(today, w),
        },
{
    match source.window_days() {
        None => Some(FetchRequest { source, window: None }),
        Some(w) => match date_window(w, today) {
            Some(win) => Some(FetchRequest { source, window: Some(win) }),
            None => None,
        },
    }
}

/// One requested source of a refresh batch: its normalized name and what to
/// ask the provider, or why it cannot be refreshed.
pub struct RefreshStep {
    pub name: String,
    pub request: Result<FetchRequest, ServiceError>,
}

/// Whether `st` is the step planned on the day `today` for the requested name `raw`.
pub open spec fn step_for(st: RefreshStep, raw: Seq<char>, today: i32) -> bool {
    &&& st.name@ == normal_name(raw)
    &&& match source_named(normal_name(raw)) {
        None => st.request == Err::<FetchRequest, ServiceError>(ServiceError::UnsupportedSource),
        Some(s) => match st.request {
            Ok(q) => request_for(q, s, today) && match window_width(s) {
                None => true,
                Some(w) => window_in_range(today, w),
            },
            Err(e) => e == ServiceError::UpstreamFetch && (window_width(s) matches Some(w)
                && !window_in_range(today, w)),
        },
    }
}

/// Whether `steps` is the plan made on the day `today` for `names`.
pub open spec fn planned_on(steps: Seq<RefreshStep>, names: Seq<String>, today: i32) -> bool {
    &&& steps.len() == names.len()
    &&& forall|i: int| 0 <= i < steps.len() ==> step_for(#[trigger] steps[i], names[i]@, today)
}

/// Plans a refresh of the named sources on the day `today`, one step per
/// name, in order. An unknown name gives an unsupported-source step.
pub fn plan_refresh_on(names: &Vec<String>, today: i32) -> (r: Vec<RefreshStep>)
    ensures
        planned_on(r@, names@, today),
{
    let mut r: Vec<RefreshStep> = Vec::new();
    let mut i: usize = 0;
    while i < names.len()
        invariant
            i <= names@.len(),
            r@.len() == i,
            forall|j: int| 0 <= j < i ==> step_for(#[trigger] r@[j], names@[j]@, today),
        decreases names@.len() - i,
    {
        let name = normalize_name(names[i].as_str());
        let request = match Source::from_name(name.as_str()) {
            None => Err(ServiceError::UnsupportedSource),
            Some(s) => match request_for_source(s, today) {
                Some(q) => Ok(q),
                None => Err(ServiceError::UpstreamFetch),
            },
        };
        r.push(RefreshStep { name, request });
        i = i + 1;
    }
    r
}

/// A stored cache row.
pub struct SpaceCacheItem {
    pub source: Source,
    pub fetched_at: UtcTime,
    pub payload: serde_json::Value,
}

impl Clone for SpaceCacheItem {
    fn clone(&self) -> (r: SpaceCacheItem)
        ensures
            r == *self,
    {
        SpaceCacheItem { source: self.source, fetched_at: self.fetched_at, payload: self.payload.clone() }
    }
}

/// The newest row of `rows` for `s`, if any.
pub open spec fn latest_of(rows: Seq<SpaceCacheItem>, s: Source) -> Option<SpaceCacheItem>
    decreases rows.len(),
{
    if rows.len() == 0 {
        None
    } else if rows.last().source == s {
        Some(rows.last())
    } else {
        latest_of(rows.drop_last(), s)
    }
}

/// Rows are appended in order of their fetch time.
pub open spec fn cache_sorted(rows: Seq<SpaceCacheItem>) -> bool {
    forall|i: int, j: int|
        0 <= i < j < rows.len() ==> (#[trigger] rows[i]).fetched_at.total_nanos() <= (#[trigger] rows[j]).fetched_at.total_nanos()
}

/// No row of `rows` was fetched after `now`.
pub open spec fn cache_not_after(rows: Seq<SpaceCacheItem>, now: UtcTime) -> bool {
    forall|i: int| 0 <= i < rows.len() ==> (#[trigger] rows[i]).fetched_at.total_nanos() <= now.total_nanos()
}

/// `r` is the row of `rows` for `s` with the greatest fetch time, or `None`
/// when `s` has no row.
pub open spec fn is_newest(rows: Seq<SpaceCacheItem>, s: Source, r: Option<SpaceCacheItem>) -> bool {
    match r {
        None => forall|i: int| 0 <= i < rows.len() ==> (#[trigger] rows[i]).source != s,
        Some(item) => {
            &&& item.source == s
            &&& exists|i: int| 0 <= i < rows.len() && #[trigger] rows[i] == item
            &&& forall|i: int| 0 <= i < rows.len() && (#[trigger] rows[i]).source == s
                ==> rows[i].fetched_at.total_nanos() <= item.fetched_at.total_nanos()
        },
    }
}

pub proof fn lemma_latest_is_newest(rows: Seq<SpaceCacheItem>, s: Source)
    requires
        cache_sorted(rows),
    ensures
        is_newest(rows, s, latest_of(rows, s)),
    decreases rows.len(),
{
    if rows.len() > 0 {
        let d = rows.drop_last();
        assert(cache_sorted(d)) by {
            assert forall|i: int, j: int| 0 <= i < j < d.len() implies (#[trigger] d[i]).fetched_at.total_nanos() <= (#[trigger] d[j]).fetched_at.total_nanos() by {
                assert(d[i] == rows[i] && d[j] == rows[j]);
            }
        }
        lemma_latest_is_newest(d, s);
        if rows.last().source == s {
            assert(rows[rows.len() - 1] == rows.last());
            assert forall|i: int| 0 <= i < rows.len() && (#[trigger] rows[i]).source == s
                implies rows[i].fetched_at.total_nanos() <= rows.last().fetched_at.total_nanos() by {
                if i < rows.len() - 1 {
                    assert(rows[i] == rows[i]);
                }
            }
        } else {
            match latest_of(d, s) {
                None => {
                    assert forall|i: int| 0 <= i < rows.len() implies (#[trigger] rows[i]).source != s by {
                        if i < rows.len() - 1 {
                            assert(rows[i] == d[i]);
                        }
                    }
                },
                Some(item) => {
                    let k = choose|k: int| 0 <= k < d.len() && #[trigger] d[k] == item;
                    assert(rows[k] == item);
                    assert forall|i: int| 0 <= i < rows.len() && (#[trigger] rows[i]).source == s
                        implies rows[i].fetched_at.total_nanos() <= item.fetched_at.total_nanos() by {
                        assert(i < rows.len() - 1);
                        assert(rows[i] == d[i]);
                    }
                },
            }
        }
    }
}

/// The append-only cache table.
pub struct CacheRepo {
    rows: Vec<SpaceCacheItem>,
}

impl View for CacheRepo {
    type V = Seq<SpaceCacheItem>;

    closed spec fn view(&self) -> Seq<SpaceCacheItem> {
        self.rows@
    }
}

impl CacheRepo {
    pub open spec fn wf(&self) -> bool {
        cache_sorted(self@)
    }

    /// An empty cache table.
    pub fn new() -> (r: CacheRepo)
        ensures
            r.wf(),
            r@ == Seq::<SpaceCacheItem>::empty(),
    {
        CacheRepo { rows: Vec::new() }
    }

    /// Appends one row, fetched at `now`, which no stored row follows.
    pub fn write(&mut self, source: Source, payload: serde_json::Value, now: UtcTime)
        requires
            old(self).wf(),
            cache_not_after(old(self)@, now),
        ensures
            final(self).wf(),
            cache_not_after(final(self)@, now),
            final(self)@ == old(self)@.push(SpaceCacheItem { source, fetched_at: now, payload }),
    {
        self.rows.push(SpaceCacheItem { source, fetched_at: now, payload });
        assert(self@.last().fetched_at == now);
    }

    /// The newest row for `source`, if any.
    pub fn latest(&self, source: Source) -> (r: Option<SpaceCacheItem>)
        requires
            self.wf(),
        ensures
            r == latest_of(self@, source),
            is_newest(self@, source, r),
    {
        proof { lemma_latest_is_newest(self@, source); }
        let ghost want = latest_of(self@, source);
        let mut i: usize = self.rows.len();
        assert(self@.subrange(0, i as int) =~= self@);
        while i > 0
            invariant
                i <= self@.len(),
                latest_of(self@, source) == latest_of(self@.subrange(0, i as int), source),
                want == latest_of(self@, source),
                is_newest(self@, source, want),
            decreases i,
        {
            assert(self@.subrange(0, i as int).drop_last() =~= self@.subrange(0, i - 1));
            if self.rows[i - 1].source == source {
                return Some(self.rows[i - 1].clone());
            }
            i = i - 1;
        }
        None
    }

    /// The newest row of each of `sources`, in the same order.
    pub fn latest_by_sources(&self, sources: &Vec<Source>) -> (r: Vec<Option<SpaceCacheItem>>)
        requires
            self.wf(),
        ensures
            r@.len() == sources@.len(),
            forall|i: int| 0 <= i < r@.len() ==> #[trigger] r@[i] == latest_of(self@, sources@[i]),
            forall|i: int| 0 <= i < r@.len() ==> is_newest(self@, sources@[i], #[trigger] r@[i]),
    {
        let mut r: Vec<Option<SpaceCacheItem>> = Vec::new();
        let mut i: usize = 0;
        while i < sources.len()
            invariant
                i <= sources@.len(),
                r@.len() == i,
                self.wf(),
                forall|j: int| 0 <= j < i ==> #[trigger] r@[j] == latest_of(self@, sources@[j]),
                forall|j: int| 0 <= j < i ==> is_newest(self@, sources@[j], #[trigger] r@[j]),
            decreases sources@.len() - i,
        {
            r.push(self.latest(sources[i]));
            i = i + 1;
        }
        r
    }
}

} // verus!

verus! {

/// The answer to a read of the newest cache row of a source: the row, or an
/// explicit "no data" marker.
pub struct SpaceLatestResponse {
    pub source: String,
    pub fetched_at: Option<UtcTime>,
    pub payload: Option<serde_json::Value>,
    pub message: Option<String>,
}

impl SpaceLatestResponse {
    /// The answer when the source has no row.
    pub fn empty(source: String) -> (r: SpaceLatestResponse)
        ensures
            r.source == source,
            r.fetched_at is None,
            r.payload is None,
            r.message matches Some(m) && m@ == "no data"@,
    {
        SpaceLatestResponse {
            source,
            fetched_at: None,
            payload: None,
            message: Some(String::from_str("no data")),
        }
    }

    /// The answer carrying a stored row.
    pub fn from_item(item: SpaceCacheItem) -> (r: SpaceLatestResponse)
        ensures
            r.source@ == source_name(item.source),
            r.fetched_at == Some(item.fetched_at),
            r.payload == Some(item.payload),
            r.message is None,
    {
        SpaceLatestResponse {
            source: item.source.name(),
            fetched_at: Some(item.fetched_at),
            payload: Some(item.payload),
            message: None,
        }
    }
}

/// The names of the sources that a refresh brought in, in the order tried.
pub struct RefreshResult {
    pub refreshed: Vec<String>,
}

/// One step of a refresh together with what its provider call returned:
/// `None` when the call failed or was not made.
pub struct RefreshAttempt {
    pub step: RefreshStep,
    pub payload: Option<serde_json::Value>,
}

pub open spec fn succeeded(a: RefreshAttempt) -> bool {
    a.step.request is Ok && a.payload is Some
}

/// The names of the attempts that succeeded, in order.
pub open spec fn refreshed_names(atts: Seq<RefreshAttempt>) -> Seq<Seq<char>>
    decreases atts.len(),
{
    if atts.len() == 0 {
        Seq::empty()
    } else if succeeded(atts.last()) {
        refreshed_names(atts.drop_last()).push(atts.last().step.name@)
    } else {
        refreshed_names(atts.drop_last())
    }
}

/// The cache rows that the successful attempts write at `now`, in order.
pub open spec fn written_rows(atts: Seq<RefreshAttempt>, now: UtcTime) -> Seq<SpaceCacheItem>
    decreases atts.len(),
{
    if atts.len() == 0 {
        Seq::empty()
    } else if succeeded(atts.last()) {
        written_rows(atts.drop_last(), now).push(
            SpaceCacheItem {
                source: atts.last().step.request->Ok_0.source,
                fetched_at: now,
                payload: atts.last().payload->Some_0,
            },
        )
    } else {
        written_rows(atts.drop_last(), now)
    }
}

/// A composite view of the newest row of every source, the newest position
/// snapshot and the catalog size; an absent part is `None`.
pub struct SpaceSummary {
    pub apod: Option<SpaceCacheItem>,
    pub neo: Option<SpaceCacheItem>,
    pub flr: Option<SpaceCacheItem>,
    pub cme: Option<SpaceCacheItem>,
    pub spacex: Option<SpaceCacheItem>,
    pub iss: Option<IssEntry>,
    pub osdr_count: i64,
}

/// The refresh-cache service: the cache table and the default source list.
pub struct SpaceCacheService {
    cache_repo: CacheRepo,
    default_sources: Vec<String>,
}

impl View for SpaceCacheService {
    type V = Seq<SpaceCacheItem>;

    closed spec fn view(&self) -> Seq<SpaceCacheItem> {
        self.cache_repo@
    }
}

impl SpaceCacheService {
    pub open spec fn wf(&self) -> bool {
        cache_sorted(self@)
    }

    pub closed spec fn defaults(&self) -> Seq<String> {
        self.default_sources@
    }

    /// A service over an empty cache, with the given default source list.
    pub fn new(default_sources: Vec<String>) -> (r: SpaceCacheService)
        ensures
            r.wf(),
            r@ == Seq::<SpaceCacheItem>::empty(),
            r.defaults() == default_sources@,
    {
        SpaceCacheService { cache_repo: CacheRepo::new(), default_sources }
    }

    /// Whether a row fetched at `now` may be appended: no stored row was
    /// fetched later.
    pub fn accepts_time(&self, now: UtcTime) -> (r: bool)
        requires
            self.wf(),
        ensures
            r == cache_not_after(self@, now),
    {
        let n = self.cache_repo.rows.len();
        if n == 0 {
            return true;
        }
        let last = self.cache_repo.rows[n - 1].fetched_at;
        let ok = crate::time::not_later(last, now);
        proof {
            let rows = self@;
            assert(last == rows[n - 1].fetched_at);
            if ok {
                assert forall|i: int| 0 <= i < rows.len() implies (#[trigger] rows[i]).fetched_at.total_nanos() <= now.total_nanos() by {
                    if i < n - 1 {
                        assert(rows[i].fetched_at.total_nanos() <= rows[n - 1].fetched_at.total_nanos());
                    }
                }
            }
        }
        ok
    }

    /// The configured default source list.
    pub fn default_sources(&self) -> (r: Vec<String>)
        ensures
            r@ == self.defaults(),
    {
        let mut r: Vec<String> = Vec::new();
        let mut i: usize = 0;
        while i < self.default_sources.len()
            invariant
                i <= self.defaults().len(),
                r@ == self.defaults().subrange(0, i as int),
            decreases self.defaults().len() - i,
        {
            r.push(self.default_sources[i].clone());
            i = i + 1;
            assert(r@ =~= self.defaults().subrange(0, i as int));
        }
        assert(r@ =~= self.defaults());
        r
    }

    /// The newest row of the source named `source` (matched without regard
    /// to case), or the explicit empty answer; never an error.
    pub fn latest(&self, source: &str) -> (r: SpaceLatestResponse)
        requires
            self.wf(),
        ensures
            r.source@ == crate::sources::lowercase_of(source@),
            source_named(crate::sources::lowercase_of(source@)) matches Some(s)
                ==> is_newest(self@, s, latest_of(self@, s)),
            ({
                let found = match source_named(crate::sources::lowercase_of(source@)) {
                    Some(s) => latest_of(self@, s),
                    None => None,
                };
                match found {
                    None => r.fetched_at is None && r.payload is None
                        && (r.message matches Some(m) && m@ == "no data"@),
                    Some(item) => r.fetched_at == Some(item.fetched_at) && r.payload == Some(item.payload)
                        && r.message is None,
                }
            }),
    {
        let name = crate::sources::to_lowercase(source);
        match Source::from_name(name.as_str()) {
            Some(s) => match self.cache_repo.latest(s) {
                Some(item) => {
                    proof { lemma_latest_source(self@, s); }
                    SpaceLatestResponse::from_item(item)
                },
                None => SpaceLatestResponse::empty(name),
            },
            None => SpaceLatestResponse::empty(name),
        }
    }

    /// Plans a refresh of the default source list on the day `today`.
    pub fn plan_defaults(&self, today: i32) -> (r: Vec<RefreshStep>)
        ensures
            planned_on(r@, self.defaults(), today),
    {
        let names = self.default_sources();
        plan_refresh_on(&names, today)
    }

    /// Completes a refresh batch: writes one row, at `now`, per attempt whose
    /// source is known and whose provider call returned a document, in order.
    /// Fails with `NoSourcesRefreshed`, having written nothing, when no
    /// attempt succeeded; otherwise lists the names that did.
    #[verifier::loop_isolation(false)]
    pub fn refresh_sources(&mut self, attempts: Vec<RefreshAttempt>, now: UtcTime) -> (r: Result<RefreshResult, ServiceError>)
        requires
            old(self).wf(),
            cache_not_after(old(self)@, now),
        ensures
            final(self).wf(),
            cache_not_after(final(self)@, now),
            final(self).defaults() == old(self).defaults(),
            final(self)@ == old(self)@ + written_rows(attempts@, now),
            r is Ok <==> refreshed_names(attempts@).len() > 0,
            r matches Ok(res) ==> res.refreshed@.map_values(|s: String| s@) == refreshed_names(attempts@),
            r is Err ==> r == Err::<RefreshResult, ServiceError>(ServiceError::NoSourcesRefreshed),
    {
        let ghost all = attempts@;
        let ghost rows0 = self@;
        let total: usize = attempts.len();
        let mut rest = attempts;
        let mut refreshed: Vec<String> = Vec::new();
        let mut i: usize = 0;
        while rest.len() > 0
            invariant
                i + rest@.len() == all.len(),
                all.len() == total,
                rest@ == all.subrange(i as int, all.len() as int),
                self.defaults() == old(self).defaults(),
                self.wf(),
                cache_not_after(self@, now),
                self@ == rows0 + written_rows(all.subrange(0, i as int), now),
                refreshed@.map_values(|s: String| s@) == refreshed_names(all.subrange(0, i as int)),
            decreases rest@.len(),
        {
            let ghost pending = rest@;
            let a = rest.remove(0);
            assert(a == all[i as int]);
            assert(all.subrange(0, i + 1).drop_last() =~= all.subrange(0, i as int));
            assert(all.subrange(0, i + 1).last() == a);
            let RefreshAttempt { step, payload } = a;
            let RefreshStep { name, request } = step;
            match (request, payload) {
                (Ok(q), Some(v)) => {
                    self.cache_repo.write(q.source, v, now);
                    refreshed.push(name);
                },
                _ => {},
            }
            i = i + 1;
            assert(rest@ =~= all.subrange(i as int, all.len() as int));
            assert(self@ =~= rows0 + written_rows(all.subrange(0, i as int), now));
            assert(refreshed@.map_values(|s: String| s@) =~= refreshed_names(all.subrange(0, i as int)));
        }
        assert(all.subrange(0, i as int) =~= all);
        if refreshed.len() == 0 {
            proof { lemma_no_names_no_rows(all, now); }
            assert(self@ =~= rows0);
            return Err(ServiceError::NoSourcesRefreshed);
        }
        Ok(RefreshResult { refreshed })
    }

    /// The newest row of every source, the newest position snapshot and the
    /// catalog size, read through the owning services.
    pub fn summary(&self, iss: &IssService, osdr: &OsdrService) -> (r: SpaceSummary)
        requires
            self.wf(),
            iss.wf(),
            osdr.wf(),
        ensures
            r.apod == latest_of(self@, Source::Apod),
            r.neo == latest_of(self@, Source::Neo),
            r.flr == latest_of(self@, Source::Flr),
            r.cme == latest_of(self@, Source::Cme),
            r.spacex == latest_of(self@, Source::Spacex),
            is_newest(self@, Source::Apod, r.apod),
            is_newest(self@, Source::Neo, r.neo),
            is_newest(self@, Source::Flr, r.flr),
            is_newest(self@, Source::Cme, r.cme),
            is_newest(self@, Source::Spacex, r.spacex),
            iss@.len() == 0 ==> r.iss is None,
            iss@.len() > 0 ==> r.iss == Some(iss@.last()),
            r.osdr_count == osdr@.len(),
    {
        let all = Source::all();
        let mut latest = self.cache_repo.latest_by_sources(&all);
        assert(all@[4] == Source::Spacex);
        let spacex = latest.pop().unwrap();
        let cme = latest.pop().unwrap();
        let flr = latest.pop().unwrap();
        let neo = latest.pop().unwrap();
        let apod = latest.pop().unwrap();
        SpaceSummary { apod, neo, flr, cme, spacex, iss: iss.last(), osdr_count: osdr.count() }
    }
}

proof fn lemma_latest_source(rows: Seq<SpaceCacheItem>, s: Source)
    ensures
        latest_of(rows, s) matches Some(item) ==> item.source == s,
    decreases rows.len(),
{
    if rows.len() > 0 {
        lemma_latest_source(rows.drop_last(), s);
    }
}

proof fn lemma_no_names_no_rows(atts: Seq<RefreshAttempt>, now: UtcTime)
    ensures
        refreshed_names(atts).len() == written_rows(atts, now).len(),
    decreases atts.len(),
{
    if atts.len() > 0 {
        lemma_no_names_no_rows(atts.drop_last(), now);
    }
}

} // verus!

verus! {

/// A refresh of one source that succeeds and one whose name is unknown, in
/// either order, succeeds and lists only the first, writing one row for it.
pub proof fn lemma_refresh_skips_unsupported(valid: RefreshAttempt, unknown: RefreshAttempt, now: UtcTime)
    requires
        succeeded(valid),
        unknown.step.request == Err::<FetchRequest, ServiceError>(ServiceError::UnsupportedSource),
    ensures
        refreshed_names(seq![valid, unknown]) == seq![valid.step.name@],
        refreshed_names(seq![unknown, valid]) == seq![valid.step.name@],
        written_rows(seq![valid, unknown], now).len() == 1,
        written_rows(seq![unknown, valid], now).len() == 1,
        written_rows(seq![valid, unknown], now)[0].source == valid.step.request->Ok_0.source,
{
    let a = seq![valid, unknown];
    let b = seq![unknown, valid];
    let e = Seq::<RefreshAttempt>::empty();
    let sv = seq![valid];
    let su = seq![unknown];
    assert(a.drop_last() =~= sv && a.last() == unknown);
    assert(b.drop_last() =~= su && b.last() == valid);
    assert(sv.drop_last() =~= e && sv.last() == valid);
    assert(su.drop_last() =~= e && su.last() == unknown);
    assert(refreshed_names(e) == Seq::<Seq<char>>::empty());
    assert(written_rows(e, now) == Seq::<SpaceCacheItem>::empty());
    assert(refreshed_names(sv) =~= seq![valid.step.name@]);
    assert(refreshed_names(su) =~= Seq::<Seq<char>>::empty());
    assert(written_rows(sv, now).len() == 1);
    assert(written_rows(su, now).len() == 0);
    assert(refreshed_names(b) =~= seq![valid.step.name@]);
}

/// A refresh in which no attempt succeeds lists no source and writes no row,
/// so the batch fails as a whole.
pub proof fn lemma_refresh_all_failing(atts: Seq<RefreshAttempt>, now: UtcTime)
    requires
        forall|i: int| 0 <= i < atts.len() ==> !succeeded(#[trigger] atts[i]),
    ensures
        refreshed_names(atts).len() == 0,
        written_rows(atts, now).len() == 0,
    decreases atts.len(),
{
    if atts.len() > 0 {
        assert(!succeeded(atts[atts.len() - 1]));
        assert forall|i: int| 0 <= i < atts.drop_last().len() implies !succeeded(#[trigger] atts.drop_last()[i]) by {
            assert(atts.drop_last()[i] == atts[i]);
        }
        lemma_refresh_all_failing(atts.drop_last(), now);
    }
}

/// A name that stands for no source is planned as an unsupported-source
/// step, whatever the day.
pub proof fn lemma_unknown_name_unsupported(st: RefreshStep, raw: Seq<char>, today: i32)
    requires
        step_for(st, raw, today),
        source_named(normal_name(raw)) is None,
    ensures
        st.request == Err::<FetchRequest, ServiceError>(ServiceError::UnsupportedSource),
{
}

} // verus!
