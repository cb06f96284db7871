use vstd::prelude::*;
use crate::json::{FieldValue, fields_of, member_field};
use crate::normalize::{
    dataset_id_names, title_names, status_names, updated_names,
    dataset_id_keys, first_instant, first_text, opt_view, pick_datetime, pick_string, status_keys,
    title_keys, updated_keys,
};
use crate::time::UtcTime;
use crate::errors::ServiceError;

verus! {

/// One catalog record as read from an upstream document, ready to be stored.
pub struct CatalogItem {
    pub dataset_id: Option<String>,
    pub title: Option<String>,
    pub status: Option<String>,
    pub updated_at: Option<UtcTime>,
    pub raw: serde_json::Value,
}

impl Clone for CatalogItem {
    fn clone(&self) -> (r: CatalogItem)
        ensures
            r == *self,
    {
        CatalogItem {
            dataset_id: self.dataset_id.clone(),
            title: self.title.clone(),
            status: self.status.clone(),
            updated_at: self.updated_at,
            raw: self.raw.clone(),
        }
    }
}

/// The normalized fields of a document, from the members found under each
/// alias list.
pub open spec fn item_from(
    ids: Seq<FieldValue>,
    titles: Seq<FieldValue>,
    statuses: Seq<FieldValue>,
    times: Seq<FieldValue>,
    raw: serde_json::Value,
    item: CatalogItem,
) -> bool {
    &&& opt_view(item.dataset_id) == first_text(ids)
    &&& opt_view(item.title) == first_text(titles)
    &&& opt_view(item.status) == first_text(statuses)
    &&& item.updated_at == first_instant(times)
    &&& item.raw == raw
}

/// The members of `doc` under `keys`, in order.
pub open spec fn doc_fields(doc: serde_json::Value, keys: Seq<Seq<char>>) -> Seq<FieldValue> {
    Seq::new(keys.len(), |i: int| member_field(doc, keys[i]))
}

/// Whether `item` is what the alias lists read from `doc`.
pub open spec fn read_item(doc: serde_json::Value, item: CatalogItem) -> bool {
    item_from(
        doc_fields(doc, dataset_id_names()),
        doc_fields(doc, title_names()),
        doc_fields(doc, status_names()),
        doc_fields(doc, updated_names()),
        doc,
        item,
    )
}

impl CatalogItem {
    /// Builds an item from the members found under the identifier, title,
    /// status and update-time alias lists.
    pub fn from_fields(
        ids: &Vec<FieldValue>,
        titles: &Vec<FieldValue>,
        statuses: &Vec<FieldValue>,
        times: &Vec<FieldValue>,
        raw: serde_json::Value,
    ) -> (r: CatalogItem)
        ensures
            item_from(ids@, titles@, statuses@, times@, raw, r),
            r.updated_at matches Some(t) ==> t.wf(),
    {
        CatalogItem {
            dataset_id: pick_string(ids),
            title: pick_string(titles),
            status: pick_string(statuses),
            updated_at: pick_datetime(times),
            raw,
        }
    }

    /// Reads an upstream document through the alias lists.
    pub fn from_document(doc: serde_json::Value) -> (r: CatalogItem)
        ensures
            read_item(doc, r),
            r.raw == doc,
            r.dataset_id matches Some(s) ==> s@.len() > 0,
            r.updated_at matches Some(t) ==> t.wf(),
    {
        let ids = fields_of(&doc, &dataset_id_keys());
        let titles = fields_of(&doc, &title_keys());
        let statuses = fields_of(&doc, &status_keys());
        let times = fields_of(&doc, &updated_keys());
        assert(ids@ =~= doc_fields(doc, dataset_id_names()));
        assert(titles@ =~= doc_fields(doc, title_names()));
        assert(statuses@ =~= doc_fields(doc, status_names()));
        assert(times@ =~= doc_fields(doc, updated_names()));
        let r = CatalogItem::from_fields(&ids, &titles, &statuses, &times, doc);
        proof { lemma_first_text_nonempty(ids@); }
        r
    }
}

proof fn lemma_first_text_nonempty(fs: Seq<FieldValue>)
    requires
        forall|i: int| 0 <= i < fs.len() ==> (#[trigger] fs[i] matches FieldValue::Number(t, _) ==> t@.len() > 0),
    ensures
        first_text(fs) matches Some(s) ==> s.len() > 0,
    decreases fs.len(),
{
    if fs.len() > 0 {
        assert(fs[0] matches FieldValue::Number(t, _) ==> t@.len() > 0);
        assert forall|i: int| 0 <= i < fs.drop_first().len() implies (#[trigger] fs.drop_first()[i] matches FieldValue::Number(t, _) ==> t@.len() > 0) by {
            assert(fs.drop_first()[i] == fs[i + 1]);
        }
        lemma_first_text_nonempty(fs.drop_first());
    }
}

/// A stored catalog record.
pub struct OsdrRecord {
    pub id: i64,
    pub dataset_id: Option<String>,
    pub title: Option<String>,
    pub status: Option<String>,
    pub updated_at: Option<UtcTime>,
    pub inserted_at: UtcTime,
    pub raw: serde_json::Value,
}

impl Clone for OsdrRecord {
    fn clone(&self) -> (r: OsdrRecord)
        ensures
            r == *self,
    {
        OsdrRecord {
            id: self.id,
            dataset_id: self.dataset_id.clone(),
            title: self.title.clone(),
            status: self.status.clone(),
            updated_at: self.updated_at,
            inserted_at: self.inserted_at,
            raw: self.raw.clone(),
        }
    }
}

pub open spec fn key_of(r: OsdrRecord) -> Option<Seq<char>> {
    opt_view(r.dataset_id)
}

/// The record that an upsert of `item` at `now` stores in a table of `rows`
/// when no record shares its identifier.
pub open spec fn fresh_record(rows: Seq<OsdrRecord>, item: CatalogItem, now: UtcTime) -> OsdrRecord {
    OsdrRecord {
        id: (rows.len() + 1) as i64,
        dataset_id: item.dataset_id,
        title: item.title,
        status: item.status,
        updated_at: item.updated_at,
        inserted_at: now,
        raw: item.raw,
    }
}

/// A record with the fields that an upsert of `item` overwrites.
pub open spec fn merged_record(old: OsdrRecord, item: CatalogItem) -> OsdrRecord {
    OsdrRecord {
        title: item.title,
        status: item.status,
        updated_at: item.updated_at,
        raw: item.raw,
        ..old
    }
}

pub open spec fn has_key(rows: Seq<OsdrRecord>, k: Seq<char>) -> bool {
    exists|i: int| 0 <= i < rows.len() && key_of(#[trigger] rows[i]) == Some(k)
}

pub open spec fn index_of_key(rows: Seq<OsdrRecord>, k: Seq<char>) -> int {
    choose|i: int| 0 <= i < rows.len() && key_of(#[trigger] rows[i]) == Some(k)
}

/// The rows after an upsert of `item` at `now`: a record with the same
/// identifier takes the new title, status, update time and document; an item
/// without an identifier, or with a new one, is appended.
pub open spec fn upserted(rows: Seq<OsdrRecord>, item: CatalogItem, now: UtcTime) -> Seq<OsdrRecord> {
    match opt_view(item.dataset_id) {
        Some(k) => if has_key(rows, k) {
            let i = index_of_key(rows, k);
            rows.update(i, merged_record(rows[i], item))
        } else {
            rows.push(fresh_record(rows, item, now))
        },
        None => rows.push(fresh_record(rows, item, now)),
    }
}

/// Whether an upsert of `item` into `rows` needs a new row.
pub open spec fn needs_row(rows: Seq<OsdrRecord>, item: CatalogItem) -> bool {
    match opt_view(item.dataset_id) {
        Some(k) => !has_key(rows, k),
        None => true,
    }
}

/// The rows after upserting `items` one after another at `now`.
pub open spec fn upserted_all(rows: Seq<OsdrRecord>, items: Seq<CatalogItem>, now: UtcTime) -> Seq<OsdrRecord>
    decreases items.len(),
{
    if items.len() == 0 {
        rows
    } else {
        upserted_all(upserted(rows, items[0], now), items.drop_first(), now)
    }
}

/// The well-formedness of a catalog table: ids count up from one in
/// insertion order, and no two records share an identifier.
pub open spec fn rows_wf(rows: Seq<OsdrRecord>) -> bool {
    &&& rows.len() < i64::MAX
    &&& forall|i: int, j: int|
        0 <= i < j < rows.len() ==> (#[trigger] rows[i]).inserted_at.total_nanos() <= (#[trigger] rows[j]).inserted_at.total_nanos()
    &&& forall|i: int| 0 <= i < rows.len() ==> (#[trigger] rows[i]).id == i + 1
    &&& forall|i: int, j: int|
        0 <= i < rows.len() && 0 <= j < rows.len() && i != j && key_of(#[trigger] rows[i]).is_some()
            ==> key_of(rows[i]) != key_of(#[trigger] rows[j])
}

/// No record of `rows` was inserted after `now`.
pub open spec fn inserted_by(rows: Seq<OsdrRecord>, now: UtcTime) -> bool {
    forall|i: int| 0 <= i < rows.len() ==> (#[trigger] rows[i]).inserted_at.total_nanos() <= now.total_nanos()
}

/// The catalog table: records in insertion order, at most one per identifier.
pub struct OsdrRepo {
    rows: Vec<OsdrRecord>,
}

impl View for OsdrRepo {
    type V = Seq<OsdrRecord>;

    closed spec fn view(&self) -> Seq<OsdrRecord> {
        self.rows@
    }
}

/// The `limit` newest records of `rows`, newest first.
pub open spec fn newest_first(rows: Seq<OsdrRecord>, limit: int) -> Seq<OsdrRecord> {
    let n = if limit < 0 { 0 } else if limit < rows.len() { limit } else { rows.len() as int };
    Seq::new(n as nat, |i: int| rows[rows.len() - 1 - i])
}

impl OsdrRepo {
    pub open spec fn wf(&self) -> bool {
        rows_wf(self@)
    }

    /// An empty table.
    pub fn new() -> (r: OsdrRepo)
        ensures
            r.wf(),
            r@ == Seq::<OsdrRecord>::empty(),
    {
        OsdrRepo { rows: Vec::new() }
    }

    /// Inserts the item, or updates the record that has its identifier; fails,
    /// leaving the table as it was, only when the ids are exhausted.
    pub fn upsert_item(&mut self, item: CatalogItem, now: UtcTime) -> (r: Result<(), ServiceError>)
        requires
            old(self).wf(),
            inserted_by(old(self)@, now),
        ensures
            final(self).wf(),
            inserted_by(final(self)@, now),
            r is Ok <==> !(needs_row(old(self)@, item) && old(self)@.len() + 1 >= i64::MAX),
            r is Ok ==> final(self)@ == upserted(old(self)@, item, now),
            r is Err ==> final(self)@ == old(self)@ && r == Err::<(), ServiceError>(ServiceError::StorageWrite),
    {
        let ghost rows0 = self@;
        proof {
            if !(needs_row(rows0, item) && rows0.len() + 1 >= i64::MAX) {
                lemma_upserted(rows0, item, now);
            }
        }
        let found = match &item.dataset_id {
            Some(ds) => self.find_key(ds),
            None => None,
        };
        match found {
            Some(i) => {
                let ghost k = opt_view(item.dataset_id).unwrap();
                assert(has_key(rows0, k));
                let ghost ki = index_of_key(rows0, k);
                assert(ki == i) by {
                    if ki != i {
                        assert(key_of(rows0[ki]) == Some(k));
                    }
                }
                let mut merged = self.rows[i].clone();
                merged.title = item.title;
                merged.status = item.status;
                merged.updated_at = item.updated_at;
                merged.raw = item.raw;
                self.rows.set(i, merged);
                assert(self@ =~= upserted(rows0, item, now));
                assert forall|a: int, b: int|
                    0 <= a < self@.len() && 0 <= b < self@.len() && a != b && key_of(#[trigger] self@[a]).is_some()
                        implies key_of(self@[a]) != key_of(#[trigger] self@[b]) by {
                    assert(key_of(self@[a]) == key_of(rows0[a]));
                    assert(key_of(self@[b]) == key_of(rows0[b]));
                }
                Ok(())
            },
            None => {
                assert(needs_row(rows0, item));
                if self.rows.len() as u64 >= 9_223_372_036_854_775_806u64 {
                    return Err(ServiceError::StorageWrite);
                }
                let id = (self.rows.len() as u64 + 1) as i64;
                let rec = OsdrRecord {
                    id,
                    dataset_id: item.dataset_id,
                    title: item.title,
                    status: item.status,
                    updated_at: item.updated_at,
                    inserted_at: now,
                    raw: item.raw,
                };
                self.rows.push(rec);
                assert(self@ =~= upserted(rows0, item, now));
                assert forall|a: int, b: int|
                    0 <= a < self@.len() && 0 <= b < self@.len() && a != b && key_of(#[trigger] self@[a]).is_some()
                        implies key_of(self@[a]) != key_of(#[trigger] self@[b]) by {
                    if a == rows0.len() as int {
                        assert(self@[b] == rows0[b]);
                    } else if b == rows0.len() as int {
                        assert(self@[a] == rows0[a]);
                    }
                }
                Ok(())
            },
        }
    }

    /// The position of the record with identifier `ds`, if any.
    fn find_key(&self, ds: &String) -> (r: Option<usize>)
        requires
            self.wf(),
        ensures
            r matches Some(i) ==> i < self@.len() && key_of(self@[i as int]) == Some(ds@),
            r is None ==> !has_key(self@, ds@),
    {
        let mut i: usize = 0;
        while i < self.rows.len()
            invariant
                i <= self@.len(),
                forall|j: int| 0 <= j < i ==> key_of(#[trigger] self@[j]) != Some(ds@),
            decreases self@.len() - i,
        {
            let same = match &self.rows[i].dataset_id {
                Some(k) => *k == *ds,
                None => false,
            };
            if same {
                return Some(i);
            }
            i = i + 1;
        }
        None
    }

    /// The number of records.
    pub fn count(&self) -> (r: i64)
        requires
            self.wf(),
        ensures
            r == self@.len(),
    {
        self.rows.len() as i64
    }

    /// Up to `limit` records, newest insertion first; a negative limit gives none.
    pub fn list(&self, limit: i64) -> (r: Vec<OsdrRecord>)
        requires
            self.wf(),
        ensures
            r@ == newest_first(self@, limit as int),
    {
        let n = self.rows.len();
        let take: usize = if limit < 0 {
            0
        } else if (limit as u64) < (n as u64) {
            limit as usize
        } else {
            n
        };
        let mut out: Vec<OsdrRecord> = Vec::new();
        let mut i: usize = 0;
        while i < take
            invariant
                n == self@.len(),
                take <= n,
                take == newest_first(self@, limit as int).len(),
                i <= take,
                out@ =~= newest_first(self@, limit as int).subrange(0, i as int),
            decreases take - i,
        {
            out.push(self.rows[n - 1 - i].clone());
            i = i + 1;
        }
        assert(out@ =~= newest_first(self@, limit as int));
        out
    }
}

} // verus!

verus! {

/// Whether upserting `items` one after another into `rows` never runs out of ids.
pub open spec fn sync_fits(rows: Seq<OsdrRecord>, items: Seq<CatalogItem>, now: UtcTime) -> bool
    decreases items.len(),
{
    if items.len() == 0 {
        true
    } else {
        &&& !(needs_row(rows, items[0]) && rows.len() + 1 >= i64::MAX)
        &&& sync_fits(upserted(rows, items[0], now), items.drop_first(), now)
    }
}

/// The catalog-sync service: reads the provider's documents into the
/// catalog table, one upsert per document.
pub struct OsdrService {
    repo: OsdrRepo,
}

impl View for OsdrService {
    type V = Seq<OsdrRecord>;

    closed spec fn view(&self) -> Seq<OsdrRecord> {
        self.repo@
    }
}

proof fn lemma_upserted_all_snoc(rows: Seq<OsdrRecord>, items: Seq<CatalogItem>, item: CatalogItem, now: UtcTime)
    ensures
        upserted_all(rows, items.push(item), now) == upserted(upserted_all(rows, items, now), item, now),
    decreases items.len(),
{
    if items.len() == 0 {
        assert(items.push(item).drop_first() =~= Seq::<CatalogItem>::empty());
        assert(items.push(item)[0] == item);
        assert(upserted_all(upserted(rows, item, now), Seq::<CatalogItem>::empty(), now) == upserted(rows, item, now));
        assert(upserted_all(rows, items, now) == rows);
    } else {
        assert(items.push(item).drop_first() =~= items.drop_first().push(item));
        assert(items.push(item)[0] == items[0]);
        lemma_upserted_all_snoc(upserted(rows, items[0], now), items.drop_first(), item, now);
    }
}

impl OsdrService {
    /// Ids count up from one in insertion order and no two records share an
    /// identifier.
    pub open spec fn wf(&self) -> bool {
        rows_wf(self@)
    }

    /// A service over an empty catalog table.
    pub fn new() -> (r: OsdrService)
        ensures
            r.wf(),
            r@ == Seq::<OsdrRecord>::empty(),
    {
        OsdrService { repo: OsdrRepo::new() }
    }

    /// Upserts the items in order; the first failing upsert ends the batch,
    /// keeping what was written before it.
    #[verifier::loop_isolation(false)]
    pub fn sync_items(&mut self, items: Vec<CatalogItem>, now: UtcTime) -> (r: Result<usize, ServiceError>)
        requires
            old(self).wf(),
            inserted_by(old(self)@, now),
        ensures
            final(self).wf(),
            inserted_by(final(self)@, now),
            r is Ok <==> sync_fits(old(self)@, items@, now),
            r is Ok ==> r == Ok::<usize, ServiceError>(items@.len() as usize)
                && final(self)@ == upserted_all(old(self)@, items@, now),
            r is Err ==> r == Err::<usize, ServiceError>(ServiceError::StorageWrite),
            r is Err ==> exists|k: int|
                0 <= k < items@.len() && final(self)@ == upserted_all(old(self)@, items@.subrange(0, k), now)
                    && #[trigger] needs_row(final(self)@, items@[k]) && final(self)@.len() + 1 >= i64::MAX,
    {
        let ghost all = items@;
        let ghost rows0 = self@;
        assert(all.subrange(0, 0) =~= Seq::<CatalogItem>::empty());
        let total: usize = items.len();
        let mut rest = items;
        let mut written: usize = 0;
        while rest.len() > 0
            invariant
                self.wf(),
                rows0 == old(self)@,
                inserted_by(self@, now),
                self@ == upserted_all(rows0, all.subrange(0, written as int), now),
                written + rest@.len() == all.len(),
                all.len() <= usize::MAX,
                rest@ == all.subrange(written as int, all.len() as int),
                upserted_all(rows0, all, now) == upserted_all(self@, rest@, now),
                sync_fits(rows0, all, now) == sync_fits(self@, rest@, now),
            decreases rest@.len(),
        {
            let ghost pending = rest@;
            let item = rest.remove(0);
            assert(rest@ =~= pending.drop_first());
            let ghost before = self@;
            assert(item == pending[0]);
            let res = self.repo.upsert_item(item, now);
            if res.is_err() {
                assert(needs_row(self@, all[written as int]));
                assert(!sync_fits(rows0, all, now));
                return Err(ServiceError::StorageWrite);
            }
            assert(sync_fits(before, pending, now) == sync_fits(self@, rest@, now));
            assert(upserted_all(before, pending, now) == upserted_all(self@, rest@, now));
            proof {
                lemma_upserted_all_snoc(rows0, all.subrange(0, written as int), item, now);
                assert(all.subrange(0, written as int).push(item) =~= all.subrange(0, written + 1));
            }
            written = written + 1;
            assert(rest@ =~= all.subrange(written as int, all.len() as int));
        }
        assert(rest@.len() == 0);
        Ok(written)
    }

    /// One sync cycle: `fetched` is what the catalog provider returned, or
    /// `None` when the call failed. A failed call leaves the table unchanged.
    pub fn sync(&mut self, fetched: Option<Vec<serde_json::Value>>, now: UtcTime) -> (r: Result<usize, ServiceError>)
        requires
            old(self).wf(),
            inserted_by(old(self)@, now),
        ensures
            final(self).wf(),
            inserted_by(final(self)@, now),
            fetched is None ==> r == Err::<usize, ServiceError>(ServiceError::UpstreamFetch)
                && final(self)@ == old(self)@,
            fetched matches Some(docs) ==> exists|items: Seq<CatalogItem>|
                #[trigger] items.len() == docs@.len()
                && (forall|i: int| 0 <= i < items.len() ==> read_item(docs@[i], #[trigger] items[i]))
                && (r is Ok <==> sync_fits(old(self)@, items, now))
                && (r is Ok ==> r == Ok::<usize, ServiceError>(docs@.len() as usize)
                    && final(self)@ == upserted_all(old(self)@, items, now))
                && (r is Err ==> r == Err::<usize, ServiceError>(ServiceError::StorageWrite)
                    && exists|k: int|
                        0 <= k < items.len() && final(self)@ == upserted_all(old(self)@, items.subrange(0, k), now)
                            && #[trigger] needs_row(final(self)@, items[k]) && final(self)@.len() + 1 >= i64::MAX),
    {
        match fetched {
            None => Err(ServiceError::UpstreamFetch),
            Some(docs) => {
                let ghost d = docs@;
                let mut items: Vec<CatalogItem> = Vec::new();
                let mut docs = docs;
                while docs.len() > 0
                    invariant
                        items@.len() + docs@.len() == d.len(),
                        docs@ == d.subrange(items@.len() as int, d.len() as int),
                        forall|i: int| 0 <= i < items@.len() ==> read_item(d[i], #[trigger] items@[i]),
                    decreases docs@.len(),
                {
                    let ghost pending = docs@;
                    let doc = docs.remove(0);
                    assert(doc == d[items@.len() as int]);
                    items.push(CatalogItem::from_document(doc));
                    assert(docs@ =~= d.subrange(items@.len() as int, d.len() as int));
                }
                let ghost its = items@;
                let r = self.sync_items(items, now);
                assert(its.len() == d.len());
                r
            },
        }
    }

    /// Up to `limit` records, newest insertion first: no record left out
    /// was inserted later than one listed.
    pub fn list(&self, limit: i64) -> (r: Vec<OsdrRecord>)
        requires
            self.wf(),
        ensures
            r@ == newest_first(self@, limit as int),
            forall|i: int, j: int| 0 <= i < j < r@.len()
                ==> (#[trigger] r@[j]).inserted_at.total_nanos() <= (#[trigger] r@[i]).inserted_at.total_nanos(),
            forall|i: int, k: int| 0 <= i < r@.len() && 0 <= k < self@.len() - r@.len()
                ==> (#[trigger] self@[k]).inserted_at.total_nanos() <= (#[trigger] r@[i]).inserted_at.total_nanos(),
    {
        let r = self.repo.list(limit);
        proof {
            let rows = self@;
            assert forall|i: int, j: int| 0 <= i < j < r@.len()
                implies (#[trigger] r@[j]).inserted_at.total_nanos() <= (#[trigger] r@[i]).inserted_at.total_nanos() by {
                assert(r@[i] == rows[rows.len() - 1 - i] && r@[j] == rows[rows.len() - 1 - j]);
            }
            assert forall|i: int, k: int| 0 <= i < r@.len() && 0 <= k < self@.len() - r@.len()
                implies (#[trigger] self@[k]).inserted_at.total_nanos() <= (#[trigger] r@[i]).inserted_at.total_nanos() by {
                assert(r@[i] == rows[rows.len() - 1 - i]);
            }
        }
        r
    }

    /// Whether a record inserted at `now` may be added: no stored record was
    /// inserted later.
    pub fn accepts_time(&self, now: UtcTime) -> (r: bool)
        requires
            self.wf(),
        ensures
            r == inserted_by(self@, now),
    {
        let n = self.repo.rows.len();
        if n == 0 {
            return true;
        }
        let last = self.repo.rows[n - 1].inserted_at;
        let ok = crate::time::not_later(last, now);
        proof {
            let rows = self@;
            assert(last == rows[n - 1].inserted_at);
            if ok {
                assert forall|i: int| 0 <= i < rows.len() implies (#[trigger] rows[i]).inserted_at.total_nanos() <= now.total_nanos() by {
                    if i < n - 1 {
                        assert(rows[i].inserted_at.total_nanos() <= rows[n - 1].inserted_at.total_nanos());
                    }
                }
            }
        }
        ok
    }

    /// The number of stored records.
    pub fn count(&self) -> (r: i64)
        requires
            self.wf(),
        ensures
            r == self@.len(),
    {
        self.repo.count()
    }
}

} // verus!

verus! {

proof fn lemma_upserted(rows: Seq<OsdrRecord>, item: CatalogItem, now: UtcTime)
    requires
        rows_wf(rows),
        inserted_by(rows, now),
        !(needs_row(rows, item) && rows.len() + 1 >= i64::MAX),
    ensures
        rows_wf(upserted(rows, item, now)),
        inserted_by(upserted(rows, item, now), now),
        needs_row(rows, item) ==> upserted(rows, item, now).len() == rows.len() + 1,
        !needs_row(rows, item) ==> upserted(rows, item, now).len() == rows.len(),
        forall|k: Seq<char>| has_key(rows, k) ==> has_key(upserted(rows, item, now), k),
        opt_view(item.dataset_id) matches Some(k) ==> {
            let t = upserted(rows, item, now);
            let r = t[index_of_key(t, k)];
            &&& has_key(t, k)
            &&& r.title == item.title
            &&& r.status == item.status
            &&& r.updated_at == item.updated_at
            &&& r.raw == item.raw
        },
{
    let t = upserted(rows, item, now);
    assert forall|a: int| 0 <= a < t.len() implies (#[trigger] t[a]).inserted_at == if a < rows.len() { rows[a].inserted_at } else { now } by {
    }
    assert forall|a: int, b: int|
        0 <= a < b < t.len() implies (#[trigger] t[a]).inserted_at.total_nanos() <= (#[trigger] t[b]).inserted_at.total_nanos() by {
        assert(t[a].inserted_at == if a < rows.len() { rows[a].inserted_at } else { now });
        assert(t[b].inserted_at == if b < rows.len() { rows[b].inserted_at } else { now });
    }
    assert forall|a: int, b: int|
        0 <= a < t.len() && 0 <= b < t.len() && a != b && key_of(#[trigger] t[a]).is_some()
            implies key_of(t[a]) != key_of(#[trigger] t[b]) by {
        if a < rows.len() && b < rows.len() {
            assert(key_of(t[a]) == key_of(rows[a]));
            assert(key_of(t[b]) == key_of(rows[b]));
        } else if a == rows.len() as int {
            assert(t[b] == rows[b]);
        } else {
            assert(t[a] == rows[a]);
        }
    }
    assert forall|k: Seq<char>| has_key(rows, k) implies has_key(t, k) by {
        let i = index_of_key(rows, k);
        assert(key_of(t[i]) == key_of(rows[i]));
    }
    if let Some(k) = opt_view(item.dataset_id) {
        let j = if has_key(rows, k) { index_of_key(rows, k) } else { rows.len() as int };
        assert(key_of(t[j]) == Some(k));
        assert(has_key(t, k));
        let i = index_of_key(t, k);
        assert(i == j) by {
            if i != j {
                assert(key_of(t[i]) == Some(k));
            }
        }
    }
}

proof fn lemma_inserted_by_later(rows: Seq<OsdrRecord>, a: UtcTime, b: UtcTime)
    requires
        inserted_by(rows, a),
        a.total_nanos() <= b.total_nanos(),
    ensures
        inserted_by(rows, b),
{
}

/// Upserting two records with the same identifier, one after the other,
/// leaves exactly one record with that identifier; it holds the second
/// record's title, status, update time and document, and the second upsert
/// adds no row.
pub proof fn lemma_upsert_same_identifier_twice(
    rows: Seq<OsdrRecord>,
    first: CatalogItem,
    second: CatalogItem,
    now1: UtcTime,
    now2: UtcTime,
)
    requires
        rows_wf(rows),
        inserted_by(rows, now1),
        now1.total_nanos() <= now2.total_nanos(),
        rows.len() + 2 < i64::MAX,
        opt_view(first.dataset_id) is Some,
        opt_view(second.dataset_id) == opt_view(first.dataset_id),
    ensures
        ({
            let k = opt_view(first.dataset_id).unwrap();
            let once = upserted(rows, first, now1);
            let twice = upserted(once, second, now2);
            let r = twice[index_of_key(twice, k)];
            &&& twice.len() == once.len()
            &&& has_key(twice, k)
            &&& forall|i: int, j: int|
                0 <= i < twice.len() && 0 <= j < twice.len() && key_of(#[trigger] twice[i]) == Some(k)
                    && key_of(#[trigger] twice[j]) == Some(k) ==> i == j
            &&& r.title == second.title
            &&& r.status == second.status
            &&& r.updated_at == second.updated_at
            &&& r.raw == second.raw
        }),
{
    let k = opt_view(first.dataset_id).unwrap();
    lemma_upserted(rows, first, now1);
    let once = upserted(rows, first, now1);
    lemma_inserted_by_later(once, now1, now2);
    assert(!needs_row(once, second));
    lemma_upserted(once, second, now2);
}

proof fn lemma_unkeyed_batch(rows: Seq<OsdrRecord>, items: Seq<CatalogItem>, now: UtcTime)
    requires
        rows_wf(rows),
        inserted_by(rows, now),
        rows.len() + items.len() + 1 < i64::MAX,
        forall|i: int| 0 <= i < items.len() ==> (#[trigger] items[i]).dataset_id is None,
    ensures
        inserted_by(upserted_all(rows, items, now), now),
        sync_fits(rows, items, now),
        rows_wf(upserted_all(rows, items, now)),
        upserted_all(rows, items, now).len() == rows.len() + items.len(),
    decreases items.len(),
{
    if items.len() > 0 {
        assert(items[0].dataset_id is None);
        lemma_upserted(rows, items[0], now);
        assert forall|i: int| 0 <= i < items.drop_first().len() implies (#[trigger] items.drop_first()[i]).dataset_id is None by {
            assert(items.drop_first()[i] == items[i + 1]);
        }
        lemma_unkeyed_batch(upserted(rows, items[0], now), items.drop_first(), now);
    }
}

/// Records without an identifier are never merged: syncing the same batch of
/// them twice adds one row per record each time.
pub proof fn lemma_unkeyed_records_always_appended(
    rows: Seq<OsdrRecord>,
    items: Seq<CatalogItem>,
    now1: UtcTime,
    now2: UtcTime,
)
    requires
        rows_wf(rows),
        inserted_by(rows, now1),
        now1.total_nanos() <= now2.total_nanos(),
        rows.len() + 2 * items.len() + 1 < i64::MAX,
        forall|i: int| 0 <= i < items.len() ==> (#[trigger] items[i]).dataset_id is None,
    ensures
        sync_fits(rows, items, now1),
        sync_fits(upserted_all(rows, items, now1), items, now2),
        upserted_all(rows, items, now1).len() == rows.len() + items.len(),
        upserted_all(upserted_all(rows, items, now1), items, now2).len() == rows.len() + 2 * items.len(),
{
    lemma_unkeyed_batch(rows, items, now1);
    lemma_inserted_by_later(upserted_all(rows, items, now1), now1, now2);
    lemma_unkeyed_batch(upserted_all(rows, items, now1), items, now2);
}

} // verus!

verus! {

proof fn lemma_batch_keeps_keys(rows: Seq<OsdrRecord>, items: Seq<CatalogItem>, now: UtcTime)
    requires
        rows_wf(rows),
        inserted_by(rows, now),
        rows.len() + items.len() + 1 < i64::MAX,
    ensures
        inserted_by(upserted_all(rows, items, now), now),
        sync_fits(rows, items, now),
        rows_wf(upserted_all(rows, items, now)),
        upserted_all(rows, items, now).len() <= rows.len() + items.len(),
        forall|k: Seq<char>| has_key(rows, k) ==> has_key(upserted_all(rows, items, now), k),
        forall|i: int| 0 <= i < items.len() && (#[trigger] opt_view(items[i].dataset_id)) is Some
            ==> has_key(upserted_all(rows, items, now), opt_view(items[i].dataset_id).unwrap()),
    decreases items.len(),
{
    if items.len() > 0 {
        let next = upserted(rows, items[0], now);
        lemma_upserted(rows, items[0], now);
        lemma_batch_keeps_keys(next, items.drop_first(), now);
        let fin = upserted_all(rows, items, now);
        assert forall|i: int| 0 <= i < items.len() && (#[trigger] opt_view(items[i].dataset_id)) is Some
            implies has_key(fin, opt_view(items[i].dataset_id).unwrap()) by {
            if i == 0 {
                assert(has_key(next, opt_view(items[0].dataset_id).unwrap()));
            } else {
                assert(items.drop_first()[i - 1] == items[i]);
            }
        }
    }
}

proof fn lemma_batch_of_present_keys(rows: Seq<OsdrRecord>, items: Seq<CatalogItem>, now: UtcTime)
    requires
        rows_wf(rows),
        inserted_by(rows, now),
        forall|i: int| 0 <= i < items.len() ==> (#[trigger] opt_view(items[i].dataset_id)) is Some
            && has_key(rows, opt_view(items[i].dataset_id).unwrap()),
    ensures
        inserted_by(upserted_all(rows, items, now), now),
        sync_fits(rows, items, now),
        rows_wf(upserted_all(rows, items, now)),
        upserted_all(rows, items, now).len() == rows.len(),
    decreases items.len(),
{
    if items.len() > 0 {
        assert(opt_view(items[0].dataset_id) is Some);
        lemma_upserted(rows, items[0], now);
        let next = upserted(rows, items[0], now);
        assert forall|i: int| 0 <= i < items.drop_first().len() implies (#[trigger] opt_view(items.drop_first()[i].dataset_id)) is Some
            && has_key(next, opt_view(items.drop_first()[i].dataset_id).unwrap()) by {
            assert(items.drop_first()[i] == items[i + 1]);
            assert(opt_view(items[i + 1].dataset_id) is Some);
        }
        lemma_batch_of_present_keys(next, items.drop_first(), now);
    }
}

/// Syncing the same batch of identified records a second time adds no row:
/// every record merges into the one that the first sync stored under its
/// identifier.
pub proof fn lemma_resync_identified_batch_adds_no_row(
    rows: Seq<OsdrRecord>,
    items: Seq<CatalogItem>,
    now1: UtcTime,
    now2: UtcTime,
)
    requires
        rows_wf(rows),
        inserted_by(rows, now1),
        now1.total_nanos() <= now2.total_nanos(),
        rows.len() + items.len() + 1 < i64::MAX,
        forall|i: int| 0 <= i < items.len() ==> (#[trigger] items[i]).dataset_id is Some,
    ensures
        sync_fits(rows, items, now1),
        sync_fits(upserted_all(rows, items, now1), items, now2),
        upserted_all(upserted_all(rows, items, now1), items, now2).len() == upserted_all(rows, items, now1).len(),
{
    lemma_batch_keeps_keys(rows, items, now1);
    let once = upserted_all(rows, items, now1);
    lemma_inserted_by_later(once, now1, now2);
    assert forall|i: int| 0 <= i < items.len() implies (#[trigger] opt_view(items[i].dataset_id)) is Some
        && has_key(once, opt_view(items[i].dataset_id).unwrap()) by {
        assert(items[i].dataset_id is Some);
    }
    lemma_batch_of_present_keys(once, items, now2);
}

} // verus!

verus! {

/// A sync of documents none of which carries an identifier under any alias
/// appends one row per document, each time it runs.
pub proof fn lemma_sync_of_unidentified_documents(
    rows: Seq<OsdrRecord>,
    docs: Seq<serde_json::Value>,
    items: Seq<CatalogItem>,
    now1: UtcTime,
    now2: UtcTime,
)
    requires
        rows_wf(rows),
        inserted_by(rows, now1),
        now1.total_nanos() <= now2.total_nanos(),
        rows.len() + 2 * items.len() + 1 < i64::MAX,
        items.len() == docs.len(),
        forall|i: int| 0 <= i < items.len() ==> read_item(docs[i], #[trigger] items[i]),
        forall|i: int| 0 <= i < docs.len() ==> first_text(doc_fields(#[trigger] docs[i], dataset_id_names())) is None,
    ensures
        sync_fits(rows, items, now1),
        upserted_all(rows, items, now1).len() == rows.len() + items.len(),
        upserted_all(upserted_all(rows, items, now1), items, now2).len() == rows.len() + 2 * items.len(),
{
    assert forall|i: int| 0 <= i < items.len() implies (#[trigger] items[i]).dataset_id is None by {
        assert(read_item(docs[i], items[i]));
        assert(first_text(doc_fields(docs[i], dataset_id_names())) is None);
    }
    lemma_unkeyed_records_always_appended(rows, items, now1, now2);
}

/// Syncing the same documents again, when each carries an identifier,
/// adds no row.
pub proof fn lemma_resync_of_identified_documents(
    rows: Seq<OsdrRecord>,
    docs: Seq<serde_json::Value>,
    items: Seq<CatalogItem>,
    now1: UtcTime,
    now2: UtcTime,
)
    requires
        rows_wf(rows),
        inserted_by(rows, now1),
        now1.total_nanos() <= now2.total_nanos(),
        rows.len() + items.len() + 1 < i64::MAX,
        items.len() == docs.len(),
        forall|i: int| 0 <= i < items.len() ==> read_item(docs[i], #[trigger] items[i]),
        forall|i: int| 0 <= i < docs.len() ==> first_text(doc_fields(#[trigger] docs[i], dataset_id_names())) is Some,
    ensures
        sync_fits(rows, items, now1),
        sync_fits(upserted_all(rows, items, now1), items, now2),
        upserted_all(upserted_all(rows, items, now1), items, now2).len() == upserted_all(rows, items, now1).len(),
{
    assert forall|i: int| 0 <= i < items.len() implies (#[trigger] items[i]).dataset_id is Some by {
        assert(read_item(docs[i], items[i]));
        assert(first_text(doc_fields(docs[i], dataset_id_names())) is Some);
    }
    lemma_resync_identified_batch_adds_no_row(rows, items, now1, now2);
}

} // verus!
