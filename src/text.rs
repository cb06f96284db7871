use vstd::prelude::*;
use crate::sources::{normal_name, normalize_name};

verus! {

/// The value of a string of decimal digits.
pub open spec fn digits_value(s: Seq<char>) -> int
    decreases s.len(),
{
    if s.len() == 0 {
        0
    } else {
        digits_value(s.drop_last()) * 10 + (s.last() as int - '0' as int)
    }
}

pub open spec fn is_digit(c: char) -> bool {
    '0' <= c && c <= '9'
}

pub open spec fn all_digits(s: Seq<char>) -> bool {
    forall|i: int| 0 <= i < s.len() ==> is_digit(#[trigger] s[i])
}

/// The number that `str::parse` reads for an unsigned type: an optional
/// `+`, then one or more decimal digits.
pub open spec fn unsigned_value(s: Seq<char>) -> Option<int> {
    let d = if s.len() > 0 && s[0] == '+' { s.drop_first() } else { s };
    if d.len() > 0 && all_digits(d) {
        Some(digits_value(d))
    } else {
        None
    }
}

/// The number that `str::parse` reads for a signed type: as for an unsigned
/// one, or a `-` followed by one or more decimal digits.
pub open spec fn signed_value(s: Seq<char>) -> Option<int> {
    if s.len() > 0 && s[0] == '-' {
        let d = s.drop_first();
        if d.len() > 0 && all_digits(d) {
            Some(-digits_value(d))
        } else {
            None
        }
    } else {
        unsigned_value(s)
    }
}

proof fn lemma_digits_nonneg(s: Seq<char>)
    requires
        all_digits(s),
    ensures
        digits_value(s) >= 0,
    decreases s.len(),
{
    if s.len() > 0 {
        assert(is_digit(s[s.len() - 1]));
        assert(all_digits(s.drop_last())) by {
            assert forall|i: int| 0 <= i < s.drop_last().len() implies is_digit(#[trigger] s.drop_last()[i]) by {
                assert(s.drop_last()[i] == s[i]);
            }
        }
        lemma_digits_nonneg(s.drop_last());
    }
}

proof fn lemma_digits_grow(s: Seq<char>, k: int)
    requires
        all_digits(s),
        0 <= k <= s.len(),
    ensures
        digits_value(s) >= digits_value(s.subrange(0, k)),
    decreases s.len(),
{
    if k < s.len() {
        assert(is_digit(s[s.len() - 1]));
        assert(all_digits(s.drop_last())) by {
            assert forall|i: int| 0 <= i < s.drop_last().len() implies is_digit(#[trigger] s.drop_last()[i]) by {
                assert(s.drop_last()[i] == s[i]);
            }
        }
        lemma_digits_nonneg(s.drop_last());
        lemma_digits_grow(s.drop_last(), k);
        assert(s.drop_last().subrange(0, k) =~= s.subrange(0, k));
    } else {
        assert(s.subrange(0, k) =~= s);
    }
}

/// The value of the decimal digits of `s` from `start` on, where they are
/// one or more digits and the value fits a `u64`.
fn digits_from(s: &str, start: usize) -> (r: Option<u64>)
    requires
        start <= s@.len(),
    ensures
        ({
            let d = s@.subrange(start as int, s@.len() as int);
            match r {
                Some(v) => d.len() > 0 && all_digits(d) && v == digits_value(d),
                None => !(d.len() > 0 && all_digits(d) && digits_value(d) <= u64::MAX),
            }
        }),
{
    let n = s.unicode_len();
    let ghost full = s@.subrange(start as int, s@.len() as int);
    if start >= n {
        return None;
    }
    let mut acc: u64 = 0;
    let mut i: usize = start;
    while i < n
        invariant
            n == s@.len(),
            start <= i <= n,
            full == s@.subrange(start as int, n as int),
            all_digits(s@.subrange(start as int, i as int)),
            acc == digits_value(s@.subrange(start as int, i as int)),
        decreases n - i,
    {
        let c = s.get_char(i);
        let ghost pre = s@.subrange(start as int, i as int);
        let ghost next = s@.subrange(start as int, i + 1);
        assert(next.drop_last() =~= pre);
        assert(next.last() == c);
        if !('0' <= c && c <= '9') {
            assert(!all_digits(full)) by {
                assert(full[i - start] == c);
            }
            return None;
        }
        let d: u64 = (c as u32 - '0' as u32) as u64;
        assert(all_digits(next)) by {
            assert forall|j: int| 0 <= j < next.len() implies is_digit(#[trigger] next[j]) by {
                if j < pre.len() {
                    assert(next[j] == pre[j]);
                }
            }
        }
        if acc > (u64::MAX - d) / 10 {
            assert(digits_value(next) > u64::MAX);
            proof {
                if all_digits(full) {
                    assert(full.subrange(0, next.len() as int) =~= next);
                    lemma_digits_grow(full, next.len() as int);
                }
            }
            return None;
        }
        acc = acc * 10 + d;
        i = i + 1;
    }
    assert(s@.subrange(start as int, i as int) =~= full);
    Some(acc)
}

/// `str::parse::<u64>`: an optional `+`, then decimal digits whose value
/// fits.
pub fn parse_u64(s: &str) -> (r: Option<u64>)
    ensures
        r matches Some(x) ==> unsigned_value(s@) == Some(x as int),
        r is None ==> match unsigned_value(s@) {
            Some(v) => v > u64::MAX,
            None => true,
        },
{
    let n = s.unicode_len();
    let start: usize = if n > 0 && s.get_char(0) == '+' { 1 } else { 0 };
    assert(start == 1 ==> s@.drop_first() =~= s@.subrange(1, s@.len() as int));
    assert(start == 0 ==> s@ =~= s@.subrange(0, s@.len() as int));
    digits_from(s, start)
}

/// `str::parse::<i64>`: an optional sign, then decimal digits whose value
/// fits.
pub fn parse_i64(s: &str) -> (r: Option<i64>)
    ensures
        r matches Some(x) ==> signed_value(s@) == Some(x as int),
        r is None ==> match signed_value(s@) {
            Some(v) => !(i64::MIN <= v <= i64::MAX),
            None => true,
        },
{
    let n = s.unicode_len();
    if n > 0 && s.get_char(0) == '-' {
        let ghost d = s@.drop_first();
        assert(d =~= s@.subrange(1, s@.len() as int));
        let res = digits_from(s, 1);
        match res {
            Some(m) => {
                assert(signed_value(s@) == Some(-(m as int)));
                if m <= 9_223_372_036_854_775_808u64 {
                    if m == 9_223_372_036_854_775_808u64 {
                        Some(i64::MIN)
                    } else {
                        Some(0 - (m as i64))
                    }
                } else {
                    None
                }
            },
            None => {
                assert(signed_value(s@) is None || signed_value(s@).unwrap() < i64::MIN);
                None
            },
        }
    } else {
        assert(signed_value(s@) == unsigned_value(s@));
        match parse_u64(s) {
            Some(m) => if m <= 9_223_372_036_854_775_807u64 {
                Some(m as i64)
            } else {
                None
            },
            None => None,
        }
    }
}

/// The pieces of `s` between commas; one piece when there is no comma.
pub open spec fn comma_pieces(s: Seq<char>) -> Seq<Seq<char>>
    decreases s.len(),
{
    if s.len() == 0 {
        seq![Seq::<char>::empty()]
    } else {
        let p = comma_pieces(s.drop_last());
        if s.last() == ',' {
            p.push(Seq::<char>::empty())
        } else {
            p.update(p.len() - 1, p.last().push(s.last()))
        }
    }
}

proof fn lemma_pieces_nonempty(s: Seq<char>)
    ensures
        comma_pieces(s).len() >= 1,
    decreases s.len(),
{
    if s.len() > 0 {
        lemma_pieces_nonempty(s.drop_last());
    }
}

/// The normalized, non-empty names of a list of pieces, in order.
pub open spec fn kept_names(pieces: Seq<Seq<char>>) -> Seq<Seq<char>>
    decreases pieces.len(),
{
    if pieces.len() == 0 {
        Seq::empty()
    } else if normal_name(pieces.last()).len() > 0 {
        kept_names(pieces.drop_last()).push(normal_name(pieces.last()))
    } else {
        kept_names(pieces.drop_last())
    }
}

/// The source names of a comma-separated list.
pub open spec fn source_list(s: Seq<char>) -> Seq<Seq<char>> {
    kept_names(comma_pieces(s))
}

pub open spec fn views(v: Seq<String>) -> Seq<Seq<char>> {
    v.map_values(|s: String| s@)
}

/// The pieces of `s` between commas, in order.
fn split_commas(s: &str) -> (r: Vec<String>)
    ensures
        views(r@) == comma_pieces(s@),
{
    let n = s.unicode_len();
    let mut out: Vec<String> = Vec::new();
    let mut start: usize = 0;
    let mut i: usize = 0;
    assert(views(out@) =~= Seq::<Seq<char>>::empty());
    assert(s@.subrange(0, 0) =~= Seq::<char>::empty());
    assert(views(out@).push(s@.subrange(0, 0)) =~= comma_pieces(s@.subrange(0, 0)));
    while i < n
        invariant
            n == s@.len(),
            start <= i <= n,
            views(out@).push(s@.subrange(start as int, i as int)) == comma_pieces(s@.subrange(0, i as int)),
        decreases n - i,
    {
        let c = s.get_char(i);
        let ghost pre = s@.subrange(0, i as int);
        let ghost next = s@.subrange(0, i + 1);
        assert(next.drop_last() =~= pre);
        assert(next.last() == c);
        let ghost p = comma_pieces(pre);
        if c == ',' {
            let piece = s.substring_char(start, i).to_owned();
            out.push(piece);
            start = i + 1;
            assert(views(out@) =~= p);
            assert(s@.subrange(start as int, i + 1) =~= Seq::<char>::empty());
        } else {
            assert(s@.subrange(start as int, i + 1) =~= s@.subrange(start as int, i as int).push(c));
            assert(views(out@).push(s@.subrange(start as int, i + 1)) =~= p.update(p.len() - 1, p.last().push(c)));
        }
        i = i + 1;
    }
    let last = s.substring_char(start, n).to_owned();
    out.push(last);
    assert(s@.subrange(0, n as int) =~= s@);
    assert(views(out@) =~= comma_pieces(s@));
    out
}

/// The names of a comma-separated source list, each trimmed and lowercased,
/// the empty ones left out.
pub fn parse_sources(raw: &str) -> (r: Vec<String>)
    ensures
        views(r@) == source_list(raw@),
{
    let pieces = split_commas(raw);
    let mut out: Vec<String> = Vec::new();
    let mut i: usize = 0;
    while i < pieces.len()
        invariant
            i <= pieces@.len(),
            views(pieces@) == comma_pieces(raw@),
            views(out@) == kept_names(views(pieces@).subrange(0, i as int)),
        decreases pieces@.len() - i,
    {
        let ghost pre = views(pieces@).subrange(0, i as int);
        let ghost next = views(pieces@).subrange(0, i + 1);
        assert(next.drop_last() =~= pre);
        assert(next.last() == pieces@[i as int]@);
        let name = normalize_name(pieces[i].as_str());
        if name.unicode_len() > 0 {
            out.push(name);
            assert(views(out@) =~= kept_names(next));
        }
        i = i + 1;
    }
    assert(views(pieces@).subrange(0, i as int) =~= views(pieces@));
    out
}

} // verus!
