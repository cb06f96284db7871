use vstd::prelude::*;
use crate::json::{FieldValue, fields_of};
use crate::time::UtcTime;

verus! {

/// A name for what chrono's RFC 3339 parse into `DateTime<Utc>` gives for a string.
pub uninterp spec fn rfc3339_instant(s: Seq<char>) -> Option<UtcTime>;

/// A name for what chrono's `NaiveDateTime::parse_from_str` gives for a string
/// and a format, read as UTC.
pub uninterp spec fn naive_instant(s: Seq<char>, fmt: Seq<char>) -> Option<UtcTime>;

/// First Unix second that chrono's `DateTime<Utc>` holds (year -262143).
pub const MIN_EPOCH_SECS: i64 = -8_334_601_228_800;

/// Last Unix second that chrono's `DateTime<Utc>` holds (year 262142).
pub const MAX_EPOCH_SECS: i64 = 8_210_266_876_799;

/// The instant `secs` seconds after the Unix epoch, where chrono holds it.
pub open spec fn epoch_instant(secs: i64) -> Option<UtcTime> {
    if MIN_EPOCH_SECS <= secs <= MAX_EPOCH_SECS {
        Some(UtcTime { secs: secs, nanos: 0 })
    } else {
        None
    }
}

/// Relies on chrono's `FromStr` for `DateTime<Utc>` (RFC 3339 / ISO 8601 with
/// an offset, converted to UTC), and on `timestamp` and
/// `timestamp_subsec_nanos`, which stay within chrono's range of years.
#[verifier::external_body]
fn parse_rfc3339(s: &str) -> (r: Option<UtcTime>)
    ensures
        r == rfc3339_instant(s@),
        r matches Some(t) ==> t.wf(),
{
    match s.parse::<chrono::DateTime<chrono::Utc>>() {
        Ok(dt) => Some(UtcTime { secs: dt.timestamp(), nanos: dt.timestamp_subsec_nanos() }),
        Err(_) => None,
    }
}

/// Relies on chrono's `NaiveDateTime::parse_from_str` with a strftime-style
/// format, the result read as a UTC instant (`and_utc`).
#[verifier::external_body]
fn parse_naive_utc(s: &str, fmt: &str) -> (r: Option<UtcTime>)
    ensures
        r == naive_instant(s@, fmt@),
        r matches Some(t) ==> t.wf(),
{
    match chrono::NaiveDateTime::parse_from_str(s, fmt) {
        Ok(ndt) => {
            let dt = ndt.and_utc();
            Some(UtcTime { secs: dt.timestamp(), nanos: dt.timestamp_subsec_nanos() })
        },
        Err(_) => None,
    }
}

/// Relies on chrono's `Utc.timestamp_opt(secs, 0).single()`: the instant
/// `secs` seconds after the Unix epoch, which exists exactly when its day
/// lies between `NaiveDate::MIN` and `NaiveDate::MAX`
/// (`DateTime::from_timestamp`).
#[verifier::external_body]
fn instant_from_epoch(secs: i64) -> (r: Option<UtcTime>)
    ensures
        r == epoch_instant(secs),
{
    match chrono::TimeZone::timestamp_opt(&chrono::Utc, secs, 0).single() {
        Some(dt) => Some(UtcTime { secs: dt.timestamp(), nanos: dt.timestamp_subsec_nanos() }),
        None => None,
    }
}

/// Member names tried, in order, for a record's external dataset identifier.
pub open spec fn dataset_id_names() -> Seq<Seq<char>> {
    seq!["dataset_id"@, "id"@, "uuid"@, "studyId"@, "accession"@, "osdr_id"@]
}

pub fn dataset_id_keys() -> (r: Vec<&'static str>)
    ensures
        r@.len() == dataset_id_names().len(),
        forall|i: int| 0 <= i < r@.len() ==> (#[trigger] r@[i])@ == dataset_id_names()[i],
{
    let r = vec!["dataset_id", "id", "uuid", "studyId", "accession", "osdr_id"];
    assert(r@.len() == 6);
    r
}

/// Member names tried, in order, for a record's title.
pub open spec fn title_names() -> Seq<Seq<char>> {
    seq!["title"@, "name"@, "label"@]
}

pub fn title_keys() -> (r: Vec<&'static str>)
    ensures
        r@.len() == title_names().len(),
        forall|i: int| 0 <= i < r@.len() ==> (#[trigger] r@[i])@ == title_names()[i],
{
    let r = vec!["title", "name", "label"];
    assert(r@.len() == 3);
    r
}

/// Member names tried, in order, for a record's status.
pub open spec fn status_names() -> Seq<Seq<char>> {
    seq!["status"@, "state"@, "lifecycle"@]
}

pub fn status_keys() -> (r: Vec<&'static str>)
    ensures
        r@.len() == status_names().len(),
        forall|i: int| 0 <= i < r@.len() ==> (#[trigger] r@[i])@ == status_names()[i],
{
    let r = vec!["status", "state", "lifecycle"];
    assert(r@.len() == 3);
    r
}

/// Member names tried, in order, for a record's last-update instant.
pub open spec fn updated_names() -> Seq<Seq<char>> {
    seq!["updated"@, "updated_at"@, "modified"@, "lastUpdated"@, "timestamp"@]
}

pub fn updated_keys() -> (r: Vec<&'static str>)
    ensures
        r@.len() == updated_names().len(),
        forall|i: int| 0 <= i < r@.len() ==> (#[trigger] r@[i])@ == updated_names()[i],
{
    let r = vec!["updated", "updated_at", "modified", "lastUpdated", "timestamp"];
    assert(r@.len() == 5);
    r
}

/// The second timestamp layout tried, after RFC 3339.
pub fn plain_datetime_format() -> (r: &'static str)
    ensures
        r@ == plain_format(),
{
    "%Y-%m-%d %H:%M:%S"
}

pub open spec fn plain_format() -> Seq<char> {
    "%Y-%m-%d %H:%M:%S"@
}

/// The text a member contributes as an identifier, title or status: a
/// non-empty string, or the JSON text of a number.
pub open spec fn text_of(f: FieldValue) -> Option<Seq<char>> {
    match f {
        FieldValue::Text(s) => if s@.len() > 0 { Some(s@) } else { None },
        FieldValue::Number(t, _) => Some(t@),
        _ => None,
    }
}

/// The first member, in order, that contributes a text.
pub open spec fn first_text(fs: Seq<FieldValue>) -> Option<Seq<char>>
    decreases fs.len(),
{
    if fs.len() == 0 {
        None
    } else if text_of(fs[0]).is_some() {
        text_of(fs[0])
    } else {
        first_text(fs.drop_first())
    }
}

/// The instant a member contributes: a string read as RFC 3339, else in the
/// plain layout; an integer read as seconds from the Unix epoch.
pub open spec fn instant_of(f: FieldValue) -> Option<UtcTime> {
    match f {
        FieldValue::Text(s) => if rfc3339_instant(s@).is_some() {
            rfc3339_instant(s@)
        } else {
            naive_instant(s@, plain_format())
        },
        FieldValue::Number(_, Some(e)) => epoch_instant(e),
        _ => None,
    }
}

/// The first member, in order, that contributes an instant.
pub open spec fn first_instant(fs: Seq<FieldValue>) -> Option<UtcTime>
    decreases fs.len(),
{
    if fs.len() == 0 {
        None
    } else if instant_of(fs[0]).is_some() {
        instant_of(fs[0])
    } else {
        first_instant(fs.drop_first())
    }
}

pub open spec fn opt_view(o: Option<String>) -> Option<Seq<char>> {
    match o {
        Some(s) => Some(s@),
        None => None,
    }
}

proof fn lemma_first_text_skip(fs: Seq<FieldValue>, i: int)
    requires
        0 <= i < fs.len(),
        forall|j: int| 0 <= j < i ==> text_of(#[trigger] fs[j]).is_none(),
    ensures
        first_text(fs) == first_text(fs.subrange(i, fs.len() as int)),
    decreases i,
{
    if i > 0 {
        assert(text_of(fs[0]).is_none());
        assert forall|j: int| 0 <= j < i - 1 implies text_of(#[trigger] fs.drop_first()[j]).is_none() by {
            assert(fs.drop_first()[j] == fs[j + 1]);
        }
        lemma_first_text_skip(fs.drop_first(), i - 1);
        assert(fs.drop_first().subrange(i - 1, fs.len() - 1) =~= fs.subrange(i, fs.len() as int));
    } else {
        assert(fs.subrange(0, fs.len() as int) =~= fs);
    }
}

proof fn lemma_first_instant_skip(fs: Seq<FieldValue>, i: int)
    requires
        0 <= i < fs.len(),
        forall|j: int| 0 <= j < i ==> instant_of(#[trigger] fs[j]).is_none(),
    ensures
        first_instant(fs) == first_instant(fs.subrange(i, fs.len() as int)),
    decreases i,
{
    if i > 0 {
        assert(instant_of(fs[0]).is_none());
        assert forall|j: int| 0 <= j < i - 1 implies instant_of(#[trigger] fs.drop_first()[j]).is_none() by {
            assert(fs.drop_first()[j] == fs[j + 1]);
        }
        lemma_first_instant_skip(fs.drop_first(), i - 1);
        assert(fs.drop_first().subrange(i - 1, fs.len() - 1) =~= fs.subrange(i, fs.len() as int));
    } else {
        assert(fs.subrange(0, fs.len() as int) =~= fs);
    }
}

proof fn lemma_none_all<A>(fs: Seq<FieldValue>, p: spec_fn(FieldValue) -> Option<A>, f: spec_fn(Seq<FieldValue>) -> Option<A>)
    requires
        forall|s: Seq<FieldValue>| #[trigger] f(s) == if s.len() == 0 { None } else if p(s[0]).is_some() { p(s[0]) } else { f(s.drop_first()) },
        forall|j: int| 0 <= j < fs.len() ==> p(#[trigger] fs[j]).is_none(),
    ensures
        f(fs).is_none(),
    decreases fs.len(),
{
    if fs.len() > 0 {
        assert(p(fs[0]).is_none());
        assert forall|j: int| 0 <= j < fs.drop_first().len() implies p(#[trigger] fs.drop_first()[j]).is_none() by {
            assert(fs.drop_first()[j] == fs[j + 1]);
        }
        lemma_none_all(fs.drop_first(), p, f);
    }
}

/// The first member that contributes a text, as an owned string.
pub fn pick_string(fs: &Vec<FieldValue>) -> (r: Option<String>)
    ensures
        opt_view(r) == first_text(fs@),
{
    let mut i: usize = 0;
    while i < fs.len()
        invariant
            i <= fs@.len(),
            forall|j: int| 0 <= j < i ==> text_of(#[trigger] fs@[j]).is_none(),
        decreases fs@.len() - i,
    {
        match &fs[i] {
            FieldValue::Text(s) => {
                if s.unicode_len() > 0 {
                    proof { lemma_first_text_skip(fs@, i as int); }
                    return Some(s.clone());
                }
            },
            FieldValue::Number(t, _) => {
                proof { lemma_first_text_skip(fs@, i as int); }
                return Some(t.clone());
            },
            _ => {},
        }
        i = i + 1;
    }
    proof {
        lemma_none_all(fs@, |f: FieldValue| text_of(f), |s: Seq<FieldValue>| first_text(s));
    }
    None
}

/// The first member that contributes an instant.
pub fn pick_datetime(fs: &Vec<FieldValue>) -> (r: Option<UtcTime>)
    ensures
        r == first_instant(fs@),
        r matches Some(t) ==> t.wf(),
{
    let fmt = plain_datetime_format();
    let mut i: usize = 0;
    while i < fs.len()
        invariant
            i <= fs@.len(),
            fmt@ == plain_format(),
            forall|j: int| 0 <= j < i ==> instant_of(#[trigger] fs@[j]).is_none(),
        decreases fs@.len() - i,
    {
        let found = match &fs[i] {
            FieldValue::Text(s) => {
                let a = parse_rfc3339(s.as_str());
                if a.is_some() {
                    a
                } else {
                    parse_naive_utc(s.as_str(), fmt)
                }
            },
            FieldValue::Number(_, Some(e)) => instant_from_epoch(*e),
            _ => None,
        };
        assert(found == instant_of(fs@[i as int]));
        if found.is_some() {
            proof { lemma_first_instant_skip(fs@, i as int); }
            return found;
        }
        i = i + 1;
    }
    proof {
        lemma_none_all(fs@, |f: FieldValue| instant_of(f), |s: Seq<FieldValue>| first_instant(s));
    }
    None
}

} // verus!
