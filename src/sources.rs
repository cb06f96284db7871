use vstd::prelude::*;

verus! {

/// A name for what `str::to_lowercase` gives for a string.
pub uninterp spec fn lowercase_of(s: Seq<char>) -> Seq<char>;

/// A name for what `str::trim` gives for a string.
pub uninterp spec fn trimmed_of(s: Seq<char>) -> Seq<char>;

/// Relies on `str::to_lowercase`: the lowercase mapping of every character.
#[verifier::external_body]
pub(crate) fn to_lowercase(s: &str) -> (r: String)
    ensures
        r@ == lowercase_of(s@),
        s@.len() == 0 ==> r@.len() == 0,
{
    s.to_lowercase()
}

/// Relies on `str::trim`: the string without leading and trailing white space.
#[verifier::external_body]
pub(crate) fn trim(s: &str) -> (r: String)
    ensures
        r@ == trimmed_of(s@),
        r@.len() <= s@.len(),
{
    s.trim().to_string()
}

/// The normal form of a source name as a caller wrote it.
pub open spec fn normal_name(s: Seq<char>) -> Seq<char> {
    lowercase_of(trimmed_of(s))
}

/// A source name trimmed and lowercased.
pub fn normalize_name(s: &str) -> (r: String)
    ensures
        r@ == normal_name(s@),
{
    let t = trim(s);
    to_lowercase(t.as_str())
}

/// The named sources of the refresh cache.
#[derive(Clone, Copy, Debug, PartialEq, Eq, Structural)]
pub enum Source {
    /// The astronomy picture of the day.
    Apod,
    /// The near-Earth-object feed.
    Neo,
    /// The solar-flare event feed.
    Flr,
    /// The coronal-mass-ejection event feed.
    Cme,
    /// The next launch of the launch provider.
    Spacex,
}

pub open spec fn source_name(s: Source) -> Seq<char> {
    match s {
        Source::Apod => "apod"@,
        Source::Neo => "neo"@,
        Source::Flr => "flr"@,
        Source::Cme => "cme"@,
        Source::Spacex => "spacex"@,
    }
}

/// The source a normalized name stands for.
pub open spec fn source_named(s: Seq<char>) -> Option<Source> {
    if s == "apod"@ {
        Some(Source::Apod)
    } else if s == "neo"@ {
        Some(Source::Neo)
    } else if s == "flr"@ {
        Some(Source::Flr)
    } else if s == "cme"@ {
        Some(Source::Cme)
    } else if s == "spacex"@ {
        Some(Source::Spacex)
    } else {
        None
    }
}

/// Width in days of the date window that a source's provider call asks for.
pub open spec fn window_width(s: Source) -> Option<u32> {
    match s {
        Source::Neo => Some(2u32),
        Source::Flr | Source::Cme => Some(5u32),
        _ => None,
    }
}

/// The five sources, in the order a summary lists them.
pub open spec fn all_sources() -> Seq<Source> {
    seq![Source::Apod, Source::Neo, Source::Flr, Source::Cme, Source::Spacex]
}

impl Source {
    /// The source's name as stored in the cache.
    pub fn name(&self) -> (r: String)
        ensures
            r@ == source_name(*self),
    {
        match self {
            Source::Apod => String::from_str("apod"),
            Source::Neo => String::from_str("neo"),
            Source::Flr => String::from_str("flr"),
            Source::Cme => String::from_str("cme"),
            Source::Spacex => String::from_str("spacex"),
        }
    }

    /// The source with exactly this (normalized) name.
    pub fn from_name(s: &str) -> (r: Option<Source>)
        ensures
            r == source_named(s@),
    {
        let s = String::from_str(s);
        if s == String::from_str("apod") {
            Some(Source::Apod)
        } else if s == String::from_str("neo") {
            Some(Source::Neo)
        } else if s == String::from_str("flr") {
            Some(Source::Flr)
        } else if s == String::from_str("cme") {
            Some(Source::Cme)
        } else if s == String::from_str("spacex") {
            Some(Source::Spacex)
        } else {
            None
        }
    }

    /// Width in days of the date window of the source's provider call: two
    /// for the object feed, five for each solar-event feed, none otherwise.
    pub fn window_days(&self) -> (r: Option<u32>)
        ensures
            r == window_width(*self),
    {
        match self {
            Source::Neo => Some(2),
            Source::Flr | Source::Cme => Some(5),
            _ => None,
        }
    }

    /// The five sources, in summary order.
    pub fn all() -> (r: Vec<Source>)
        ensures
            r@ == all_sources(),
    {
        let r = vec![Source::Apod, Source::Neo, Source::Flr, Source::Cme, Source::Spacex];
        assert(r@ =~= all_sources());
        r
    }
}

} // verus!
