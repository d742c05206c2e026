use vstd::prelude::*;

use crate::load_image::{entry_view, exif_entries, read_exif};

verus! {

/// The seconds since the Unix epoch that `time` reads from `value` with the
/// format description `format`, taking the date and time as UTC; `None` when
/// the description or the value does not parse.
pub uninterp spec fn utc_seconds(value: Seq<char>, format: Seq<char>) -> Option<i64>;

/// Parses the format description with `time::format_description::parse_borrowed::<1>`,
/// reads `value` with `time::PlainDateTime::parse`, and turns the date and time
/// into seconds with `assume_utc` and `unix_timestamp`. Claims only that the
/// result is [`utc_seconds`] of the two strings: the calendar rules of `time`
/// are not restated.
#[verifier::external_body]
fn parse_utc_seconds(value: &str, format: &str) -> (r: Option<i64>)
    ensures
        r == utc_seconds(value@, format@),
{
    let items = time::format_description::parse_borrowed::<1>(format).ok()?;
    let parsed = time::PlainDateTime::parse(value, &items).ok()?;
    Some(parsed.assume_utc().unix_timestamp())
}

/// How EXIF writes a `DateTime` tag, as a `time` format description.
pub open spec fn exif_format() -> Seq<char> {
    "[year]:[month]:[day] [hour]:[minute]:[second]"@
}

/// The date an image gets from the seconds read from its `DateTime` tags, in
/// the order of the tags: the last one that is not before the epoch, in
/// nanoseconds since the epoch.
pub open spec fn latest_date(stamps: Seq<Option<i64>>) -> Option<i128>
    decreases stamps.len(),
{
    if stamps.len() == 0 {
        None
    } else {
        match stamps.last() {
            Some(t) if t >= 0 => Some((t * 1_000_000_000) as i128),
            _ => latest_date(stamps.drop_last()),
        }
    }
}

/// The seconds read from each of `values` as an EXIF date.
pub open spec fn exif_seconds(values: Seq<String>) -> Seq<Option<i64>> {
    values.map_values(|v: String| utc_seconds(v@, exif_format()))
}

/// Picks the date of an image from the seconds read from its `DateTime` tags,
/// in the order of the tags: the last one that is not before the epoch wins,
/// given in nanoseconds since the epoch.
pub fn latest_exif_date(stamps: &Vec<Option<i64>>) -> (r: Option<i128>)
    ensures
        r == latest_date(stamps@),
{
    let mut found: Option<i128> = None;
    let mut i: usize = 0;
    while i < stamps.len()
        invariant
            i <= stamps.len(),
            found == latest_date(stamps@.take(i as int)),
        decreases stamps.len() - i,
    {
        proof {
            let t = stamps@.take(i + 1);
            assert(t.drop_last() =~= stamps@.take(i as int));
            assert(t.last() == stamps@[i as int]);
        }
        match stamps[i] {
            Some(t) => {
                if t >= 0 {
                    let secs: i128 = t as i128;
                    found = Some(secs * 1_000_000_000);
                }
            },
            None => {},
        }
        i = i + 1;
    }
    assert(stamps@.take(i as int) =~= stamps@);
    found
}

/// The date of an image from the values of its EXIF `DateTime` tags, in their
/// order: each is read as `year:month:day hour:minute:second` in UTC, and the
/// last one that parses and is not before the epoch wins, in nanoseconds
/// since the epoch.
pub fn exif_date_time(values: &Vec<String>) -> (r: Option<i128>)
    ensures
        r == latest_date(exif_seconds(values@)),
{
    let mut stamps: Vec<Option<i64>> = Vec::new();
    let mut i: usize = 0;
    while i < values.len()
        invariant
            i <= values.len(),
            stamps@ =~= exif_seconds(values@.take(i as int)),
        decreases values.len() - i,
    {
        let format = "[year]:[month]:[day] [hour]:[minute]:[second]";
        proof {
            reveal_strlit("[year]:[month]:[day] [hour]:[minute]:[second]");
        }
        stamps.push(parse_utc_seconds(values[i].as_str(), format));
        i = i + 1;
        assert(stamps@ =~= exif_seconds(values@.take(i as int)));
    }
    assert(values@.take(i as int) =~= values@);
    latest_exif_date(&stamps)
}

/// The values of the `DateTime` entries among EXIF entries, in their order.
pub open spec fn date_time_values(e: Seq<(Seq<char>, Seq<char>, bool, bool)>) -> Seq<Seq<char>>
    decreases e.len(),
{
    if e.len() == 0 {
        Seq::empty()
    } else if e.last().3 {
        date_time_values(e.drop_last()).push(e.last().1)
    } else {
        date_time_values(e.drop_last())
    }
}

/// The seconds read from each of `values` as an EXIF date.
pub open spec fn date_seconds(values: Seq<Seq<char>>) -> Seq<Option<i64>> {
    values.map_values(|v: Seq<char>| utc_seconds(v, exif_format()))
}

/// The values of the `DateTime` entries, in their order.
fn date_time_strings(entries: Vec<(String, String, bool, bool)>) -> (r: Vec<String>)
    ensures
        r@.map_values(|v: String| v@) == date_time_values(
            entries@.map_values(|e: (String, String, bool, bool)| entry_view(e)),
        ),
{
    let ghost all = entries@.map_values(|e: (String, String, bool, bool)| entry_view(e));
    let mut out: Vec<String> = Vec::new();
    let mut rest = entries;
    let ghost orig = rest@;
    let n = rest.len();
    let mut k: usize = 0;
    proof {
        assert(all.take(0) =~= Seq::<(Seq<char>, Seq<char>, bool, bool)>::empty());
        assert(out@.map_values(|v: String| v@) =~= date_time_values(all.take(0)));
    }
    while rest.len() > 0
        invariant
            k <= n,
            n == orig.len(),
            all == orig.map_values(|e: (String, String, bool, bool)| entry_view(e)),
            rest@ == orig.skip(k as int),
            rest.len() == n - k,
            out@.map_values(|v: String| v@) == date_time_values(all.take(k as int)),
        decreases rest.len(),
    {
        let (_, value, _, date_time) = rest.remove(0);
        proof {
            let t = all.take(k + 1);
            assert(t.drop_last() =~= all.take(k as int));
            assert(t.last() == entry_view(orig[k as int]));
        }
        let ghost before = out@;
        if date_time {
            out.push(value);
            proof {
                assert(out@.map_values(|v: String| v@) =~= before.map_values(|v: String| v@).push(
                    out@[out@.len() - 1]@,
                ));
            }
        }
        k = k + 1;
        assert(rest@ =~= orig.skip(k as int));
    }
    assert(all.take(k as int) =~= all);
    out
}

/// The date an image is sorted by, from its bytes: the values of its EXIF
/// `DateTime` tags, in their order, are read as
/// `year:month:day hour:minute:second` in UTC, and the last one that parses
/// and is not before the epoch wins, in nanoseconds since the epoch.
pub fn exif_date(bytes: &[u8]) -> (r: Option<i128>)
    ensures
        r == latest_date(date_seconds(date_time_values(exif_entries(bytes@)))),
{
    let entries = read_exif(bytes);
    let values = date_time_strings(entries);
    proof {
        assert(exif_seconds(values@) =~= date_seconds(values@.map_values(|v: String| v@)));
    }
    exif_date_time(&values)
}

/// A date that was read and is not before the epoch.
pub open spec fn usable(stamp: Option<i64>) -> bool {
    match stamp {
        Some(x) => x >= 0,
        None => false,
    }
}

/// The date picked from a sequence of read dates is the last one that was
/// read and is not before the epoch, in nanoseconds; there is none exactly
/// when no such date was read.
pub proof fn latest_date_is_last_usable(stamps: Seq<Option<i64>>)
    ensures
        latest_date(stamps) matches Some(t) ==> exists|i: int|
            0 <= i < stamps.len() && #[trigger] usable(stamps[i]) && t == stamps[i]->0 * 1_000_000_000
                && forall|j: int| i < j < stamps.len() ==> !#[trigger] usable(stamps[j]),
        latest_date(stamps) is None <==> forall|i: int|
            0 <= i < stamps.len() ==> !#[trigger] usable(stamps[i]),
    decreases stamps.len(),
{
    if stamps.len() > 0 {
        let d = stamps.drop_last();
        let n = stamps.len() - 1;
        latest_date_is_last_usable(d);
        assert forall|k: int| 0 <= k < n implies stamps[k] == d[k] by {}
        if usable(stamps[n]) {
            assert(stamps[n] == stamps.last());
        } else {
            assert(stamps[n] == stamps.last());
            assert(latest_date(stamps) == latest_date(d));
            if latest_date(d) is Some {
                let i = choose|i: int|
                    0 <= i < d.len() && #[trigger] usable(d[i]) && latest_date(d)->0 == d[i]->0
                        * 1_000_000_000 && forall|j: int| i < j < d.len() ==> !#[trigger] usable(d[j]);
                assert(usable(stamps[i]));
                assert forall|j: int| i < j < stamps.len() implies !#[trigger] usable(stamps[j]) by {
                    if j < n {
                        assert(!usable(d[j]));
                    }
                }
            } else {
                assert forall|i: int| 0 <= i < stamps.len() implies !#[trigger] usable(stamps[i]) by {
                    if i < n {
                        assert(!usable(d[i]));
                    }
                }
            }
        }
    }
}

/// The dates read for sorting are exactly the values of the `DateTime`
/// entries, in their order.
pub proof fn date_time_values_are_the_date_tags(e: Seq<(Seq<char>, Seq<char>, bool, bool)>)
    ensures
        date_time_values(e) == e.filter(|x: (Seq<char>, Seq<char>, bool, bool)| x.3).map_values(
            |x: (Seq<char>, Seq<char>, bool, bool)| x.1,
        ),
    decreases e.len(),
{
    reveal(Seq::filter);
    if e.len() > 0 {
        date_time_values_are_the_date_tags(e.drop_last());
        let f = e.drop_last().filter(|x: (Seq<char>, Seq<char>, bool, bool)| x.3);
        if e.last().3 {
            assert(f.push(e.last()).map_values(|x: (Seq<char>, Seq<char>, bool, bool)| x.1)
                =~= f.map_values(|x: (Seq<char>, Seq<char>, bool, bool)| x.1).push(e.last().1));
        }
    } else {
        assert(e.filter(|x: (Seq<char>, Seq<char>, bool, bool)| x.3).map_values(
            |x: (Seq<char>, Seq<char>, bool, bool)| x.1,
        ) =~= Seq::<Seq<char>>::empty());
    }
}

} // verus!
