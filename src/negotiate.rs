//! Capability negotiation: which encodings, resolutions and whole frame rates a
//! device advertises.
use crate::format::{CameraFormat, CaptureError, FrameFormat, Resolution};
use vstd::prelude::*;
use vstd::utf8::encode_utf8;

verus! {

pub open spec fn is_digit(b: u8) -> bool {
    48 <= b <= 57
}

/// Bytes that make up a rate token: decimal digits and the fraction slash.
pub open spec fn is_rate_byte(b: u8) -> bool {
    is_digit(b) || b == 47
}

pub open spec fn all_digits(t: Seq<u8>) -> bool {
    forall|i: int| 0 <= i < t.len() ==> is_digit(#[trigger] t[i])
}

/// The value of a string of decimal digits.
pub open spec fn decimal(t: Seq<u8>) -> nat
    decreases t.len(),
{
    if t.len() == 0 {
        0
    } else {
        decimal(t.drop_last()) * 10 + (t.last() - 48) as nat
    }
}

/// The first position at or after `i` that holds a slash, or the length of `t`.
pub open spec fn first_slash(t: Seq<u8>, i: int) -> int
    decreases t.len() - i,
{
    if i >= t.len() {
        t.len() as int
    } else if t[i] == 47 {
        i
    } else {
        first_slash(t, i + 1)
    }
}

/// How one token of a frame-rate list reads: `None` where it is not two
/// non-empty digit strings around one slash; `Some(None)` for a fraction whose
/// denominator is not `1`, which is left out; `Some(Some(n))` for the whole rate `n/1`.
pub open spec fn token_rate(t: Seq<u8>) -> Option<Option<u32>> {
    let p = first_slash(t, 0);
    let num = t.subrange(0, p);
    let den = t.subrange(p + 1, t.len() as int);
    if p < t.len() && num.len() > 0 && den.len() > 0 && all_digits(num) && all_digits(den) {
        if den == seq![49u8] {
            if decimal(num) <= u32::MAX {
                Some(Some(decimal(num) as u32))
            } else {
                None
            }
        } else {
            Some(None)
        }
    } else {
        None
    }
}

/// Rates of the tokens from position `i` on, where the token in progress began at
/// `start`. A token is a maximal run of digits and slashes; any other byte separates.
pub open spec fn rates_scan(s: Seq<u8>, i: int, start: int) -> Option<Seq<u32>>
    decreases s.len() - i,
{
    if 0 <= i < s.len() && is_rate_byte(s[i]) {
        rates_scan(s, i + 1, start)
    } else {
        let here = if start < i {
            token_rate(s.subrange(start, i))
        } else {
            Some(None)
        };
        let rest = if 0 <= i < s.len() {
            rates_scan(s, i + 1, i + 1)
        } else {
            Some(Seq::empty())
        };
        match (here, rest) {
            (Some(Some(n)), Some(r)) => Some(seq![n] + r),
            (Some(None), Some(r)) => Some(r),
            _ => None,
        }
    }
}

/// The whole frame rates listed in a frame-rate attribute, in order; `None` where
/// some token is malformed.
pub open spec fn frame_rates_of(s: Seq<u8>) -> Option<Seq<u32>> {
    rates_scan(s, 0, 0)
}

proof fn lemma_decimal_prefix(t: Seq<u8>, j: int)
    requires
        0 <= j <= t.len(),
    ensures
        decimal(t.subrange(0, j)) <= decimal(t),
    decreases t.len(),
{
    if j < t.len() {
        lemma_decimal_prefix(t.drop_last(), j);
        assert(t.drop_last().subrange(0, j) =~= t.subrange(0, j));
    } else {
        assert(t.subrange(0, j) =~= t);
    }
}

/// Reads the digits `s[start..end]` as a `u32`, or `None` where the value does not fit.
fn parse_decimal(s: &[u8], start: usize, end: usize) -> (r: Option<u32>)
    requires
        start <= end <= s@.len(),
        all_digits(s@.subrange(start as int, end as int)),
    ensures
        decimal(s@.subrange(start as int, end as int)) <= u32::MAX ==> r == Some(
            decimal(s@.subrange(start as int, end as int)) as u32,
        ),
        decimal(s@.subrange(start as int, end as int)) > u32::MAX ==> r is None,
{
    let ghost t = s@.subrange(start as int, end as int);
    let mut acc: u64 = 0;
    let mut k: usize = start;
    assert(s@.subrange(start as int, start as int) =~= Seq::<u8>::empty());
    while k < end
        invariant
            start <= k <= end <= s@.len(),
            t == s@.subrange(start as int, end as int),
            all_digits(t),
            acc as nat == decimal(s@.subrange(start as int, k as int)),
            acc <= u32::MAX,
        decreases end - k,
    {
        assert(is_digit(t[k - start]));
        let d: u64 = (s[k] - 48) as u64;
        let next: u64 = acc * 10 + d;
        let ghost pre = s@.subrange(start as int, k as int + 1);
        assert(pre.drop_last() =~= s@.subrange(start as int, k as int));
        assert(decimal(pre) == next);
        if next > 4294967295 {
            proof {
                assert(t.subrange(0, k - start + 1) =~= pre);
                lemma_decimal_prefix(t, k - start + 1);
            }
            return None;
        }
        acc = next;
        k = k + 1;
    }
    Some(acc as u32)
}

/// Reads the token `s[start..end]` as `token_rate` describes.
fn token_rate_at(s: &[u8], start: usize, end: usize) -> (r: Option<Option<u32>>)
    requires
        start < end <= s@.len(),
    ensures
        r == token_rate(s@.subrange(start as int, end as int)),
{
    let ghost t = s@.subrange(start as int, end as int);
    let mut p: usize = start;
    while p < end && s[p] != 47
        invariant
            start <= p <= end <= s@.len(),
            t == s@.subrange(start as int, end as int),
            first_slash(t, 0) == first_slash(t, p - start),
            forall|i: int| start <= i < p ==> s@[i] != 47,
        decreases end - p,
    {
        p = p + 1;
    }
    assert(first_slash(t, 0) == p - start);
    if p == end || p == start || p + 1 == end {
        return None;
    }
    let mut k: usize = start;
    while k < end
        invariant
            start <= k <= end <= s@.len(),
            start < p < end,
            t == s@.subrange(start as int, end as int),
            first_slash(t, 0) == p - start,
            forall|i: int| start <= i < k && i != p ==> is_digit(#[trigger] s@[i]),
        decreases end - k,
    {
        if k != p && !(48 <= s[k] && s[k] <= 57) {
            assert(!is_digit(s@[k as int]));
            if k < p {
                assert(t.subrange(0, p - start)[k - start] == s@[k as int]);
                assert(!all_digits(t.subrange(0, p - start)));
            } else {
                assert(t.subrange(p - start + 1, t.len() as int)[k - p - 1] == s@[k as int]);
            }
            return None;
        }
        k = k + 1;
    }
    let ghost num = t.subrange(0, p - start);
    let ghost den = t.subrange(p - start + 1, t.len() as int);
    assert(all_digits(num)) by {
        assert forall|i: int| 0 <= i < num.len() implies is_digit(#[trigger] num[i]) by {
            assert(num[i] == s@[start + i]);
        }
    }
    assert(all_digits(den)) by {
        assert forall|i: int| 0 <= i < den.len() implies is_digit(#[trigger] den[i]) by {
            assert(den[i] == s@[p + 1 + i]);
        }
    }
    if p + 2 == end && s[p + 1] == 49 {
        assert(den =~= seq![49u8]);
        assert(s@.subrange(start as int, p as int) =~= num);
        match parse_decimal(s, start, p) {
            Some(n) => Some(Some(n)),
            None => None,
        }
    } else {
        assert(den != seq![49u8]) by {
            if den.len() == 1 {
                assert(den[0] == s@[p + 1]);
            }
        }
        Some(None)
    }
}

/// Extends the rates read so far by what the rest of the scan yields.
pub open spec fn after(acc: Seq<u32>, rest: Option<Seq<u32>>) -> Option<Seq<u32>> {
    match rest {
        Some(r) => Some(acc + r),
        None => None,
    }
}

/// The whole frame rates of a frame-rate attribute such as `"30/1, 15/2, 60/1"`.
///
/// Every maximal run of digits and slashes is a token. A token `n/1` gives the
/// rate `n`; a fraction with another denominator is left out; a token that is not
/// two digit strings around one slash, or whose numerator does not fit a `u32`,
/// fails the query.
pub fn parse_frame_rates(text: &str) -> (r: Result<Vec<u32>, CaptureError>)
    ensures
        match frame_rates_of(encode_utf8(text@)) {
            Some(rates) => r is Ok && r->Ok_0@ == rates,
            None => r == Err::<Vec<u32>, CaptureError>(CaptureError::DeviceQueryFailed),
        },
{
    let s = text.as_bytes();
    let n: usize = s.len();
    let mut out: Vec<u32> = Vec::new();
    let mut start: usize = 0;
    let mut i: usize = 0;
    while i < n
        invariant
            n == s@.len(),
            s@ == encode_utf8(text@),
            start <= i <= n,
            frame_rates_of(s@) == after(out@, rates_scan(s@, i as int, start as int)),
        decreases n - i,
    {
        if 48 <= s[i] && s[i] <= 57 || s[i] == 47 {
            i = i + 1;
        } else {
            let ghost rest = rates_scan(s@, i + 1, i + 1);
            if start < i {
                match token_rate_at(s, start, i) {
                    None => {
                        assert(rates_scan(s@, i as int, start as int) is None);
                        return Err(CaptureError::DeviceQueryFailed);
                    },
                    Some(Some(rate)) => {
                        let ghost before = out@;
                        out.push(rate);
                        proof {
                            if rest is Some {
                                assert(before + (seq![rate] + rest->Some_0) =~= out@
                                    + rest->Some_0);
                            }
                        }
                    },
                    Some(None) => {},
                }
            }
            i = i + 1;
            start = i;
        }
    }
    if start < n {
        match token_rate_at(s, start, n) {
            None => {
                return Err(CaptureError::DeviceQueryFailed);
            },
            Some(Some(rate)) => {
                out.push(rate);
            },
            Some(None) => {},
        }
    }
    assert(frame_rates_of(s@) == Some(out@)) by {
        assert(out@ + Seq::<u32>::empty() =~= out@);
    }
    Ok(out)
}

/// One capability record of a device, as the platform's device registry reports it.
#[derive(Clone, Debug)]
pub struct CapabilityRecord {
    /// The media type, such as `image/jpeg` or `video/x-raw`.
    pub media_type: String,
    /// The raw sub-format tag, such as `YUY2`, where the record has one.
    pub format_tag: Option<String>,
    pub width: Option<i32>,
    pub height: Option<i32>,
    /// The frame-rate attribute as text, where the record has one.
    pub frame_rates: Option<String>,
}

/// The media type and the sub-format tag, if any, that a record of an encoding carries.
pub open spec fn media_of(f: FrameFormat) -> (Seq<char>, Option<Seq<char>>) {
    match f {
        FrameFormat::MJPEG => ("image/jpeg"@, None),
        FrameFormat::YUYV => ("video/x-raw"@, Some("YUY2"@)),
    }
}

pub open spec fn record_matches(r: CapabilityRecord, f: FrameFormat) -> bool {
    &&& r.media_type@ == media_of(f).0
    &&& match media_of(f).1 {
        None => true,
        Some(tag) => r.format_tag is Some && r.format_tag->Some_0@ == tag,
    }
}

/// The media type and tag of an encoding, as text.
fn media_text(f: FrameFormat) -> (r: (&'static str, Option<&'static str>))
    ensures
        r.0@ == media_of(f).0,
        r.1 is None <==> media_of(f).1 is None,
        r.1 is Some ==> r.1->Some_0@ == media_of(f).1->Some_0,
{
    match f {
        FrameFormat::MJPEG => ("image/jpeg", None),
        FrameFormat::YUYV => ("video/x-raw", Some("YUY2")),
    }
}

/// Whether a record describes the encoding `f`.
pub fn matches_format(rec: &CapabilityRecord, f: FrameFormat) -> (r: bool)
    ensures
        r == record_matches(*rec, f),
{
    let (media, tag) = media_text(f);
    if rec.media_type != String::from_str(media) {
        return false;
    }
    match tag {
        None => true,
        Some(t) => match &rec.format_tag {
            Some(have) => *have == String::from_str(t),
            None => false,
        },
    }
}

/// A catalog: each resolution with the whole frame rates offered at it.
pub type Catalog = Vec<(Resolution, Vec<u32>)>;

pub open spec fn catalog_view(c: Seq<(Resolution, Vec<u32>)>) -> Seq<(Resolution, Seq<u32>)> {
    c.map_values(|e: (Resolution, Vec<u32>)| (e.0, e.1@))
}

/// The first position at or after `i` whose resolution is `res`, or the length.
pub open spec fn find_resolution(c: Seq<(Resolution, Seq<u32>)>, res: Resolution, i: int) -> int
    decreases c.len() - i,
{
    if i >= c.len() {
        c.len() as int
    } else if c[i].0 == res {
        i
    } else {
        find_resolution(c, res, i + 1)
    }
}

/// `old` followed by each rate of `new` that is not listed yet.
pub open spec fn merge_rates(old: Seq<u32>, new: Seq<u32>) -> Seq<u32>
    decreases new.len(),
{
    if new.len() == 0 {
        old
    } else {
        let m = merge_rates(old, new.drop_last());
        if m.contains(new.last()) {
            m
        } else {
            m.push(new.last())
        }
    }
}

/// Adds the rates of one record: a known resolution gets the union of its
/// rates and the new ones; a new resolution is appended.
pub open spec fn catalog_insert(c: Seq<(Resolution, Seq<u32>)>, res: Resolution, rates: Seq<u32>) -> Seq<
    (Resolution, Seq<u32>),
> {
    let k = find_resolution(c, res, 0);
    if k < c.len() {
        c.update(k, (res, merge_rates(c[k].1, rates)))
    } else {
        c.push((res, merge_rates(Seq::empty(), rates)))
    }
}

proof fn lemma_merge_rates_union(old: Seq<u32>, new: Seq<u32>)
    ensures
        forall|x: u32| merge_rates(old, new).contains(x) <==> (old.contains(x) || new.contains(x)),
    decreases new.len(),
{
    if new.len() > 0 {
        lemma_merge_rates_union(old, new.drop_last());
        let m = merge_rates(old, new.drop_last());
        assert forall|x: u32| merge_rates(old, new).contains(x) <==> (old.contains(x) || new.contains(x)) by {
            if new.drop_last().contains(x) {
                let i = choose|i: int| 0 <= i < new.drop_last().len() && new.drop_last()[i] == x;
                assert(new[i] == x);
            }
            if new.contains(x) && x != new.last() {
                let i = choose|i: int| 0 <= i < new.len() && new[i] == x;
                assert(new.drop_last()[i] == x);
            }
            if !m.contains(new.last()) && x == new.last() {
                assert(m.push(new.last())[m.len() as int] == x);
            }
            if !m.contains(new.last()) && m.push(new.last()).contains(x) && x != new.last() {
                let i = choose|i: int| 0 <= i < m.push(new.last()).len() && m.push(new.last())[i] == x;
                assert(m[i] == x);
            }
            if !m.contains(new.last()) && m.contains(x) {
                let i = choose|i: int| 0 <= i < m.len() && m[i] == x;
                assert(m.push(new.last())[i] == x);
            }
            assert(new[new.len() - 1] == new.last());
        }
    }
}

/// Appends to `rates` each of `more` that it does not list yet.
fn merge_into(rates: &mut Vec<u32>, more: &Vec<u32>)
    ensures
        final(rates)@ == merge_rates(old(rates)@, more@),
{
    let mut i: usize = 0;
    while i < more.len()
        invariant
            0 <= i <= more@.len(),
            rates@ == merge_rates(old(rates)@, more@.subrange(0, i as int)),
        decreases more@.len() - i,
    {
        proof {
            assert(more@.subrange(0, i as int + 1).drop_last() =~= more@.subrange(0, i as int));
        }
        let x = more[i];
        let mut j: usize = 0;
        let mut found = false;
        while j < rates.len()
            invariant
                0 <= j <= rates@.len(),
                found == exists|m: int| 0 <= m < j && rates@[m] == x,
            decreases rates@.len() - j,
        {
            if rates[j] == x {
                found = true;
            }
            j = j + 1;
        }
        if !found {
            rates.push(x);
        }
        i = i + 1;
    }
    assert(more@.subrange(0, more@.len() as int) =~= more@);
}

/// What one record adds to a catalog under construction for the encoding `f`.
pub open spec fn catalog_step(
    c: Option<Seq<(Resolution, Seq<u32>)>>,
    rec: CapabilityRecord,
    f: FrameFormat,
) -> Option<Seq<(Resolution, Seq<u32>)>> {
    match c {
        None => None,
        Some(c) => if !record_matches(rec, f) {
            Some(c)
        } else if rec.width is None || rec.height is None || rec.frame_rates is None {
            None
        } else {
            match frame_rates_of(encode_utf8(rec.frame_rates->Some_0@)) {
                Some(rates) => Some(
                    catalog_insert(
                        c,
                        Resolution {
                            width: rec.width->Some_0 as u32,
                            height: rec.height->Some_0 as u32,
                        },
                        rates,
                    ),
                ),
                None => None,
            }
        },
    }
}

/// The catalog of encoding `f` over the records, in order; `None` where a
/// matching record lacks a field or lists a malformed rate.
pub open spec fn catalog_of(recs: Seq<CapabilityRecord>, f: FrameFormat) -> Option<
    Seq<(Resolution, Seq<u32>)>,
>
    decreases recs.len(),
{
    if recs.len() == 0 {
        Some(Seq::empty())
    } else {
        catalog_step(catalog_of(recs.drop_last(), f), recs.last(), f)
    }
}

/// Whether a catalog lists the rate `x` at the resolution `res`.
pub open spec fn lists(c: Seq<(Resolution, Seq<u32>)>, res: Resolution, x: u32) -> bool {
    exists|k: int| 0 <= k < c.len() && c[k].0 == res && #[trigger] c[k].1.contains(x)
}

/// The resolution a complete record describes.
pub open spec fn record_resolution(r: CapabilityRecord) -> Resolution {
    Resolution { width: r.width->Some_0 as u32, height: r.height->Some_0 as u32 }
}

/// Whether a record of encoding `f` offers the rate `x` at the resolution `res`.
pub open spec fn record_offers(r: CapabilityRecord, f: FrameFormat, res: Resolution, x: u32) -> bool {
    &&& record_matches(r, f)
    &&& record_resolution(r) == res
    &&& r.frame_rates is Some
    &&& frame_rates_of(encode_utf8(r.frame_rates->Some_0@)) is Some
    &&& frame_rates_of(encode_utf8(r.frame_rates->Some_0@))->Some_0.contains(x)
}

proof fn lemma_insert_lists(c: Seq<(Resolution, Seq<u32>)>, r: Resolution, rates: Seq<u32>, res: Resolution, x: u32)
    ensures
        lists(catalog_insert(c, r, rates), res, x) <==> (lists(c, res, x) || (res == r && rates.contains(x))),
{
    lemma_find_resolution(c, r, 0);
    let k = find_resolution(c, r, 0);
    let n = catalog_insert(c, r, rates);
    if k < c.len() {
        lemma_merge_rates_union(c[k].1, rates);
        if lists(n, res, x) {
            let j = choose|j: int| 0 <= j < n.len() && n[j].0 == res && #[trigger] n[j].1.contains(x);
            if j != k {
                assert(c[j].1.contains(x));
            } else if c[k].1.contains(x) {
                assert(lists(c, res, x));
            }
        }
        if lists(c, res, x) {
            let j = choose|j: int| 0 <= j < c.len() && c[j].0 == res && #[trigger] c[j].1.contains(x);
            if j != k {
                assert(n[j].1.contains(x));
            } else {
                assert(n[k].1.contains(x));
            }
        }
        if res == r && rates.contains(x) {
            assert(n[k].1.contains(x));
        }
    } else {
        lemma_merge_rates_union(Seq::empty(), rates);
        if lists(n, res, x) {
            let j = choose|j: int| 0 <= j < n.len() && n[j].0 == res && #[trigger] n[j].1.contains(x);
            if j < c.len() {
                assert(c[j].1.contains(x));
            } else {
                assert(!Seq::<u32>::empty().contains(x));
            }
        }
        if lists(c, res, x) {
            let j = choose|j: int| 0 <= j < c.len() && c[j].0 == res && #[trigger] c[j].1.contains(x);
            assert(n[j].1.contains(x));
        }
        if res == r && rates.contains(x) {
            assert(n[c.len() as int].1.contains(x));
        }
    }
}

/// The catalog of an encoding lists a rate at a resolution exactly when some
/// record of that encoding offers it there: records that share a resolution
/// contribute the union of their rates.
pub proof fn lemma_catalog_is_union_of_records(
    recs: Seq<CapabilityRecord>,
    f: FrameFormat,
    res: Resolution,
    x: u32,
)
    requires
        catalog_of(recs, f) is Some,
    ensures
        lists(catalog_of(recs, f)->Some_0, res, x) <==> exists|i: int|
            0 <= i < recs.len() && record_offers(#[trigger] recs[i], f, res, x),
    decreases recs.len(),
{
    if recs.len() > 0 {
        let pre = recs.drop_last();
        let last = recs.last();
        assert(catalog_of(pre, f) is Some);
        lemma_catalog_is_union_of_records(pre, f, res, x);
        let c = catalog_of(pre, f)->Some_0;
        if record_matches(last, f) {
            let rates = frame_rates_of(encode_utf8(last.frame_rates->Some_0@))->Some_0;
            lemma_insert_lists(c, record_resolution(last), rates, res, x);
        }
        if exists|i: int| 0 <= i < recs.len() && record_offers(#[trigger] recs[i], f, res, x) {
            let i = choose|i: int| 0 <= i < recs.len() && record_offers(#[trigger] recs[i], f, res, x);
            if i < pre.len() {
                assert(record_offers(pre[i], f, res, x));
            }
        }
        if exists|i: int| 0 <= i < pre.len() && record_offers(#[trigger] pre[i], f, res, x) {
            let i = choose|i: int| 0 <= i < pre.len() && record_offers(#[trigger] pre[i], f, res, x);
            assert(record_offers(recs[i], f, res, x));
        }
        if record_offers(last, f, res, x) {
            assert(record_offers(recs[recs.len() - 1], f, res, x));
        }
    }
}

/// Every resolution of a catalog occurs once.
pub open spec fn keys_unique(c: Seq<(Resolution, Seq<u32>)>) -> bool {
    forall|i: int, j: int| 0 <= i < j < c.len() ==> c[i].0 != c[j].0
}

proof fn lemma_find_resolution(c: Seq<(Resolution, Seq<u32>)>, res: Resolution, i: int)
    requires
        0 <= i <= c.len(),
    ensures
        i <= find_resolution(c, res, i) <= c.len(),
        find_resolution(c, res, i) < c.len() ==> c[find_resolution(c, res, i)].0 == res,
        forall|k: int| i <= k < find_resolution(c, res, i) ==> c[k].0 != res,
    decreases c.len() - i,
{
    if i < c.len() && c[i].0 != res {
        lemma_find_resolution(c, res, i + 1);
    }
}

proof fn lemma_insert_keeps_unique(c: Seq<(Resolution, Seq<u32>)>, res: Resolution, rates: Seq<u32>)
    requires
        keys_unique(c),
    ensures
        keys_unique(catalog_insert(c, res, rates)),
{
    lemma_find_resolution(c, res, 0);
}

/// Adds `rates` under `res`, as `catalog_insert` says.
fn insert_rates(cat: &mut Catalog, res: Resolution, rates: Vec<u32>)
    ensures
        catalog_view(final(cat)@) == catalog_insert(catalog_view(old(cat)@), res, rates@),
{
    let ghost c = catalog_view(cat@);
    let mut k: usize = 0;
    while k < cat.len()
        invariant
            0 <= k <= cat@.len(),
            c == catalog_view(cat@),
            c == catalog_view(old(cat)@),
            find_resolution(c, res, 0) == find_resolution(c, res, k as int),
        decreases cat@.len() - k,
    {
        if cat[k].0 == res {
            assert(c[k as int].0 == res);
            assert(find_resolution(c, res, k as int) == k);
            let mut merged = cat[k].1.clone();
            assert(merged@ == c[k as int].1);
            merge_into(&mut merged, &rates);
            cat.set(k, (res, merged));
            assert(catalog_view(cat@) =~= c.update(k as int, (res, merge_rates(c[k as int].1, rates@))));
            return;
        }
        k = k + 1;
    }
    let mut fresh: Vec<u32> = Vec::new();
    merge_into(&mut fresh, &rates);
    assert(fresh@ == merge_rates(Seq::<u32>::empty(), rates@));
    cat.push((res, fresh));
    assert(catalog_view(cat@) =~= c.push((res, merge_rates(Seq::empty(), rates@))));
}

/// The resolution to frame-rate catalog of the encoding `fourcc`.
///
/// Records of other encodings are passed over. A matching record without width,
/// height or frame-rate attribute, or with a malformed rate, fails the query, as
/// do absent capabilities. A resolution listed by several records gets the union
/// of their rates, each once, in the order first seen.
pub fn compatible_list_by_resolution(
    caps: &Option<Vec<CapabilityRecord>>,
    fourcc: FrameFormat,
) -> (r: Result<Catalog, CaptureError>)
    ensures
        caps is None ==> r == Err::<Catalog, CaptureError>(CaptureError::DeviceQueryFailed),
        caps is Some ==> match catalog_of(caps->Some_0@, fourcc) {
            Some(c) => r is Ok && catalog_view(r->Ok_0@) == c,
            None => r == Err::<Catalog, CaptureError>(CaptureError::DeviceQueryFailed),
        },
        r is Ok ==> keys_unique(catalog_view(r->Ok_0@)),
{
    let recs = match caps {
        Some(recs) => recs,
        None => {
            return Err(CaptureError::DeviceQueryFailed);
        },
    };
    assert(recs@ == caps->Some_0@);
    let mut cat: Catalog = Vec::new();
    let mut i: usize = 0;
    assert(recs@.subrange(0, 0) =~= Seq::<CapabilityRecord>::empty());
    while i < recs.len()
        invariant
            0 <= i <= recs@.len(),
            recs@ == caps->Some_0@,
            catalog_of(recs@.subrange(0, i as int), fourcc) == Some(catalog_view(cat@)),
            keys_unique(catalog_view(cat@)),
        decreases recs@.len() - i,
    {
        let rec = &recs[i];
        let ghost pre = recs@.subrange(0, i as int + 1);
        assert(pre.drop_last() =~= recs@.subrange(0, i as int));
        assert(pre.last() == *rec);
        if matches_format(rec, fourcc) {
            if rec.width.is_none() || rec.height.is_none() || rec.frame_rates.is_none() {
                assert(catalog_of(pre, fourcc) is None);
                proof {
                    lemma_catalog_stays_failed(recs@, fourcc, i as int + 1);
                }
                assert(catalog_of(recs@, fourcc) is None);
                return Err(CaptureError::DeviceQueryFailed);
            }
            let w: i32 = rec.width.unwrap();
            let h: i32 = rec.height.unwrap();
            let text = rec.frame_rates.as_ref().unwrap();
            match parse_frame_rates(text.as_str()) {
                Ok(rates) => {
                    proof {
                        lemma_insert_keeps_unique(
                            catalog_view(cat@),
                            Resolution { width: w as u32, height: h as u32 },
                            rates@,
                        );
                    }
                    insert_rates(&mut cat, Resolution::new(w as u32, h as u32), rates);
                },
                Err(e) => {
                    assert(catalog_of(pre, fourcc) is None);
                    proof {
                        lemma_catalog_stays_failed(recs@, fourcc, i as int + 1);
                    }
                    return Err(e);
                },
            }
        }
        i = i + 1;
    }
    assert(recs@.subrange(0, recs@.len() as int) =~= recs@);
    Ok(cat)
}

/// Once a prefix of the records fails, the whole list fails.
proof fn lemma_catalog_stays_failed(recs: Seq<CapabilityRecord>, f: FrameFormat, n: int)
    requires
        0 <= n <= recs.len(),
        catalog_of(recs.subrange(0, n), f) is None,
    ensures
        catalog_of(recs, f) is None,
    decreases recs.len() - n,
{
    if n < recs.len() {
        let pre = recs.subrange(0, n + 1);
        assert(pre.drop_last() =~= recs.subrange(0, n));
        lemma_catalog_stays_failed(recs, f, n + 1);
    } else {
        assert(recs.subrange(0, n) =~= recs);
    }
}

/// Whether some record describes the encoding `f`.
pub open spec fn offers(recs: Seq<CapabilityRecord>, f: FrameFormat) -> bool {
    exists|i: int| 0 <= i < recs.len() && record_matches(#[trigger] recs[i], f)
}

/// The encodings offered, sorted and without repeats.
pub open spec fn fourcc_list(recs: Seq<CapabilityRecord>) -> Seq<FrameFormat> {
    (if offers(recs, FrameFormat::MJPEG) {
        seq![FrameFormat::MJPEG]
    } else {
        Seq::empty()
    }) + (if offers(recs, FrameFormat::YUYV) {
        seq![FrameFormat::YUYV]
    } else {
        Seq::empty()
    })
}

/// The encodings a device offers at all, sorted and without repeats; absent
/// capabilities fail the query.
pub fn compatible_fourcc(caps: &Option<Vec<CapabilityRecord>>) -> (r: Result<
    Vec<FrameFormat>,
    CaptureError,
>)
    ensures
        caps is None ==> r == Err::<Vec<FrameFormat>, CaptureError>(
            CaptureError::DeviceQueryFailed,
        ),
        caps is Some ==> r is Ok && r->Ok_0@ == fourcc_list(caps->Some_0@),
{
    let recs = match caps {
        Some(recs) => recs,
        None => {
            return Err(CaptureError::DeviceQueryFailed);
        },
    };
    let mut jpeg = false;
    let mut yuyv = false;
    let mut i: usize = 0;
    while i < recs.len()
        invariant
            0 <= i <= recs@.len(),
            recs@ == caps->Some_0@,
            jpeg == exists|k: int| 0 <= k < i && record_matches(#[trigger] recs@[k], FrameFormat::MJPEG),
            yuyv == exists|k: int| 0 <= k < i && record_matches(#[trigger] recs@[k], FrameFormat::YUYV),
        decreases recs@.len() - i,
    {
        if matches_format(&recs[i], FrameFormat::MJPEG) {
            jpeg = true;
        } else if matches_format(&recs[i], FrameFormat::YUYV) {
            yuyv = true;
        }
        proof {
            if record_matches(recs@[i as int], FrameFormat::YUYV) {
                lemma_formats_exclusive(recs@[i as int]);
            }
        }
        i = i + 1;
    }
    let mut out: Vec<FrameFormat> = Vec::new();
    if jpeg {
        out.push(FrameFormat::MJPEG);
    }
    if yuyv {
        out.push(FrameFormat::YUYV);
    }
    assert(out@ =~= fourcc_list(recs@));
    Ok(out)
}

/// No record describes both encodings.
proof fn lemma_formats_exclusive(r: CapabilityRecord)
    ensures
        !(record_matches(r, FrameFormat::MJPEG) && record_matches(r, FrameFormat::YUYV)),
{
    reveal_strlit("image/jpeg");
    reveal_strlit("video/x-raw");
    assert("image/jpeg"@ != "video/x-raw"@) by {
        assert("image/jpeg"@[0] != "video/x-raw"@[0]);
    }
}

/// Whether a catalog offers the resolution and frame rate of `fmt`.
pub open spec fn catalog_offers(c: Seq<(Resolution, Seq<u32>)>, fmt: CameraFormat) -> bool {
    exists|k: int| 0 <= k < c.len() && c[k].0 == fmt.resolution && c[k].1.contains(fmt.frame_rate)
}

/// Checks a requested format against the catalog of its encoding; a resolution
/// and rate that the catalog does not list is refused.
pub fn check_format(catalog: &Catalog, fmt: &CameraFormat) -> (r: Result<(), CaptureError>)
    ensures
        catalog_offers(catalog_view(catalog@), *fmt) ==> r is Ok,
        !catalog_offers(catalog_view(catalog@), *fmt) ==> r == Err::<(), CaptureError>(
            CaptureError::UnsupportedOperation,
        ),
{
    let ghost c = catalog_view(catalog@);
    let mut k: usize = 0;
    while k < catalog.len()
        invariant
            0 <= k <= catalog@.len(),
            c == catalog_view(catalog@),
            forall|j: int| 0 <= j < k ==> !(c[j].0 == fmt.resolution && c[j].1.contains(fmt.frame_rate)),
        decreases catalog@.len() - k,
    {
        let entry = &catalog[k];
        assert(entry.1@ == c[k as int].1 && entry.0 == c[k as int].0);
        if entry.0 == fmt.resolution {
            let mut j: usize = 0;
            while j < entry.1.len()
                invariant
                    0 <= k < catalog@.len(),
                    c == catalog_view(catalog@),
                    *entry == catalog@[k as int],
                    entry.1@ == c[k as int].1,
                    entry.0 == fmt.resolution,
                    0 <= j <= entry.1@.len(),
                    forall|m: int| 0 <= m < j ==> entry.1@[m] != fmt.frame_rate,
                decreases entry.1@.len() - j,
            {
                if entry.1[j] == fmt.frame_rate {
                    assert(c[k as int].1[j as int] == fmt.frame_rate);
                    assert(c[k as int].1.contains(fmt.frame_rate));
                    assert(c[k as int].0 == fmt.resolution);
                    return Ok(());
                }
                j = j + 1;
            }
        }
        k = k + 1;
    }
    Err(CaptureError::UnsupportedOperation)
}

/// Every resolution and frame rate that a catalog lists, asked for in the
/// catalog's encoding, passes the format check.
pub proof fn lemma_listed_formats_accepted(
    c: Seq<(Resolution, Seq<u32>)>,
    f: FrameFormat,
    k: int,
    j: int,
)
    requires
        0 <= k < c.len(),
        0 <= j < c[k].1.len(),
    ensures
        catalog_offers(c, CameraFormat { resolution: c[k].0, format: f, frame_rate: c[k].1[j] }),
{
    let fmt = CameraFormat { resolution: c[k].0, format: f, frame_rate: c[k].1[j] };
    assert(c[k].1.contains(fmt.frame_rate));
}

} // verus!
