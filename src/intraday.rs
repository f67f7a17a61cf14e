//! The intraday time-series record and its decoding from a response body.

use vstd::prelude::*;
use vstd::string::StringExecFns;

use crate::json::{
    decimal_member, decimal_spec, first_with, index_of, int_member, int_spec, parse_json, parsed_json,
    text_member, text_spec, value_fails, DecodeError, Json,
};
use crate::utils::Decimal;

verus! {

/// Describes the series a response holds.
#[derive(Clone, Debug, PartialEq)]
pub struct MetaData {
    pub information: String,
    pub symbol: String,
    pub last_refreshed: String,
    pub interval: String,
    pub output_size: String,
    pub time_zone: String,
}

/// Open, high, low, close and volume over one interval.
#[derive(Clone, Copy, Debug, PartialEq, Eq, Structural)]
pub struct TimeSeriesItem {
    pub open: Decimal,
    pub high: Decimal,
    pub low: Decimal,
    pub close: Decimal,
    pub volume: i64,
}

/// One series: its rows, from timestamp to record, in the order the parser
/// gives them (sorted by timestamp, as serde_json keeps object members).
pub type SeriesRows = Vec<(String, TimeSeriesItem)>;

/// A response: its metadata, and each series under its label (such as
/// "Time Series (5min)"), labels and timestamps in the order the parser gives
/// them (sorted by key, as serde_json keeps object members).
#[derive(Clone, Debug, PartialEq)]
pub struct TimeSeries {
    pub meta_data: MetaData,
    pub time_series: Vec<(String, SeriesRows)>,
}

/// No two pairs of `s` have the same text.
pub open spec fn keys_unique<V>(s: Seq<(String, V)>) -> bool {
    forall|a: int, b: int| 0 <= a < b < s.len() ==> s[a].0@ != s[b].0@
}

/// Each member of `m` whose value is an object has unique keys there.
pub open spec fn nested_keys_unique(m: Seq<(String, Json)>) -> bool {
    forall|i: int|
        0 <= i < m.len() ==> (#[trigger] m[i].1 matches Json::Object(x) ==> keys_unique(x@))
}

pub open spec fn meta_of(j: Json) -> Option<MetaData> {
    match j {
        Json::Object(m) => {
            let m = m@;
            if text_spec(m, "1. Information"@) is Some && text_spec(m, "2. Symbol"@) is Some
                && text_spec(m, "3. Last Refreshed"@) is Some && text_spec(m, "4. Interval"@) is Some
                && text_spec(m, "5. Output Size"@) is Some && text_spec(m, "6. Time Zone"@) is Some {
                Some(
                    MetaData {
                        information: text_spec(m, "1. Information"@)->Some_0,
                        symbol: text_spec(m, "2. Symbol"@)->Some_0,
                        last_refreshed: text_spec(m, "3. Last Refreshed"@)->Some_0,
                        interval: text_spec(m, "4. Interval"@)->Some_0,
                        output_size: text_spec(m, "5. Output Size"@)->Some_0,
                        time_zone: text_spec(m, "6. Time Zone"@)->Some_0,
                    },
                )
            } else {
                None
            }
        },
        _ => None,
    }
}

pub open spec fn item_of(j: Json) -> Option<TimeSeriesItem> {
    match j {
        Json::Object(m) => {
            let m = m@;
            if decimal_spec(m, "1. open"@) is Some && decimal_spec(m, "2. high"@) is Some
                && decimal_spec(m, "3. low"@) is Some && decimal_spec(m, "4. close"@) is Some
                && int_spec(m, "5. volume"@) is Some {
                Some(
                    TimeSeriesItem {
                        open: decimal_spec(m, "1. open"@)->Some_0,
                        high: decimal_spec(m, "2. high"@)->Some_0,
                        low: decimal_spec(m, "3. low"@)->Some_0,
                        close: decimal_spec(m, "4. close"@)->Some_0,
                        volume: int_spec(m, "5. volume"@)->Some_0,
                    },
                )
            } else {
                None
            }
        },
        _ => None,
    }
}

/// The rows of a series: every member decodes to a record.
pub open spec fn rows_of(members: Seq<(String, Json)>) -> Option<Seq<(String, TimeSeriesItem)>>
    decreases members.len(),
{
    if members.len() == 0 {
        Some(Seq::empty())
    } else {
        match (rows_of(members.drop_last()), item_of(members.last().1)) {
            (Some(rows), Some(item)) => Some(rows.push((members.last().0, item))),
            _ => None,
        }
    }
}

pub open spec fn series_of(j: Json) -> Option<Seq<(String, TimeSeriesItem)>> {
    match j {
        Json::Object(m) => rows_of(m@),
        _ => None,
    }
}

/// The series of a response: every member but the metadata is a series,
/// whatever its label.
pub open spec fn table_of(members: Seq<(String, Json)>) -> Option<
    Seq<(String, Seq<(String, TimeSeriesItem)>)>,
>
    decreases members.len(),
{
    if members.len() == 0 {
        Some(Seq::empty())
    } else {
        let last = members.last();
        match table_of(members.drop_last()) {
            Some(t) => if last.0@ == "Meta Data"@ {
                Some(t)
            } else {
                match series_of(last.1) {
                    Some(rows) => Some(t.push((last.0, rows))),
                    None => None,
                }
            },
            None => None,
        }
    }
}

/// The series of a record, each with the rows it holds.
pub open spec fn table_view(t: Seq<(String, SeriesRows)>) -> Seq<
    (String, Seq<(String, TimeSeriesItem)>),
> {
    t.map_values(|p: (String, SeriesRows)| (p.0, p.1@))
}

/// What a response decodes to: an object with a "Meta Data" member holding
/// the six metadata strings, and series under all its other members.
pub open spec fn time_series_of(j: Json) -> Option<(MetaData, Seq<(String, Seq<(String, TimeSeriesItem)>)>)> {
    match j {
        Json::Object(m) => match first_with(m@, "Meta Data"@) {
            Some(md) => match (meta_of(md), table_of(m@)) {
                (Some(meta), Some(t)) => Some((meta, t)),
                _ => None,
            },
            None => None,
        },
        _ => None,
    }
}

impl TimeSeries {
    pub open spec fn table(&self) -> Seq<(String, Seq<(String, TimeSeriesItem)>)> {
        table_view(self.time_series@)
    }
}

proof fn lemma_rows_fail_extends(s: Seq<(String, Json)>, k: int, n: int)
    requires
        0 <= k <= n <= s.len(),
        rows_of(s.subrange(0, k)) is None,
    ensures
        rows_of(s.subrange(0, n)) is None,
    decreases n - k,
{
    if n > k {
        lemma_rows_fail_extends(s, k, n - 1);
        assert(s.subrange(0, n).drop_last() =~= s.subrange(0, n - 1));
    }
}

proof fn lemma_table_fail_extends(s: Seq<(String, Json)>, k: int, n: int)
    requires
        0 <= k <= n <= s.len(),
        table_of(s.subrange(0, k)) is None,
    ensures
        table_of(s.subrange(0, n)) is None,
    decreases n - k,
{
    if n > k {
        lemma_table_fail_extends(s, k, n - 1);
        assert(s.subrange(0, n).drop_last() =~= s.subrange(0, n - 1));
    }
}

fn malformed(key: &str) -> (e: DecodeError)
    ensures
        e.key@ == key@,
        e.cause is None,
{
    DecodeError { key: String::from_str(key), cause: None }
}

/// Decodes the metadata object of a response.
pub fn decode_meta_data(j: &Json) -> (r: Result<MetaData, DecodeError>)
    ensures
        match r {
            Ok(v) => meta_of(*j) == Some(v),
            Err(e) => meta_of(*j) is None && value_fails(*j, e),
        },
{
    let m = match j {
        Json::Object(m) => m,
        _ => {
            return Err(malformed("Meta Data"));
        },
    };
    let information = text_member(m, "1. Information")?;
    let symbol = text_member(m, "2. Symbol")?;
    let last_refreshed = text_member(m, "3. Last Refreshed")?;
    let interval = text_member(m, "4. Interval")?;
    let output_size = text_member(m, "5. Output Size")?;
    let time_zone = text_member(m, "6. Time Zone")?;
    Ok(MetaData { information, symbol, last_refreshed, interval, output_size, time_zone })
}

/// Decodes one row's record: four prices and a volume, each sent as a string.
pub fn decode_item(j: &Json) -> (r: Result<TimeSeriesItem, DecodeError>)
    ensures
        match r {
            Ok(v) => item_of(*j) == Some(v),
            Err(e) => item_of(*j) is None && value_fails(*j, e),
        },
{
    let m = match j {
        Json::Object(m) => m,
        _ => {
            return Err(malformed(""));
        },
    };
    let open = decimal_member(m, "1. open")?;
    let high = decimal_member(m, "2. high")?;
    let low = decimal_member(m, "3. low")?;
    let close = decimal_member(m, "4. close")?;
    let volume = int_member(m, "5. volume")?;
    Ok(TimeSeriesItem { open, high, low, close, volume })
}

/// Decodes one series: an object from timestamp to record.
pub fn decode_series(j: &Json) -> (r: Result<SeriesRows, DecodeError>)
    ensures
        match r {
            Ok(v) => series_of(*j) == Some(v@) && (*j matches Json::Object(m) && keys_unique(m@)
                ==> keys_unique(v@)),
            Err(_) => series_of(*j) is None,
        },
{
    let m = match j {
        Json::Object(m) => m,
        _ => {
            return Err(malformed(""));
        },
    };
    let mut rows: SeriesRows = Vec::new();
    let mut i: usize = 0;
    assert(m@.subrange(0, 0) =~= Seq::<(String, Json)>::empty());
    while i < m.len()
        invariant
            i <= m.len(),
            rows_of(m@.subrange(0, i as int)) == Some(rows@),
            rows@.len() == i,
            forall|t: int| 0 <= t < i ==> #[trigger] rows@[t].0 == m@[t].0,
            series_of(*j) == rows_of(m@),
        decreases m.len() - i,
    {
        assert(m@.subrange(0, i + 1).drop_last() =~= m@.subrange(0, i as int));
        match decode_item(&m[i].1) {
            Ok(item) => {
                rows.push((m[i].0.clone(), item));
            },
            Err(e) => {
                proof {
                    assert(m@.subrange(0, i + 1).last() == m@[i as int]);
                    assert(rows_of(m@.subrange(0, i + 1)) is None);
                    lemma_rows_fail_extends(m@, i + 1, m.len() as int);
                    assert(m@.subrange(0, m.len() as int) =~= m@);
                }
                return Err(e);
            },
        }
        i = i + 1;
    }
    assert(m@.subrange(0, m.len() as int) =~= m@);
    Ok(rows)
}

/// Decodes a time-series response from a JSON value. The series labels are
/// not fixed: every member other than "Meta Data" is taken as a series.
pub fn decode_time_series(j: &Json) -> (r: Result<TimeSeries, DecodeError>)
    ensures
        match r {
            Ok(v) => time_series_of(*j) == Some((v.meta_data, v.table())) && (*j matches Json::Object(
                m,
            ) && keys_unique(m@) && nested_keys_unique(m@) ==> keys_unique(v.time_series@) && (
            forall|t: int|
                0 <= t < v.time_series.len() ==> keys_unique(#[trigger] v.time_series@[t].1@))),
            Err(_) => time_series_of(*j) is None,
        },
{
    let m = match j {
        Json::Object(m) => m,
        _ => {
            return Err(malformed(""));
        },
    };
    let meta_data = match index_of(m, "Meta Data") {
        Some(k) => decode_meta_data(&m[k].1)?,
        None => {
            return Err(malformed("Meta Data"));
        },
    };
    let meta_key = String::from_str("Meta Data");
    let mut table: Vec<(String, SeriesRows)> = Vec::new();
    let mut i: usize = 0;
    let ghost mut idx: Seq<int> = Seq::empty();
    assert(m@.subrange(0, 0) =~= Seq::<(String, Json)>::empty());
    assert(table_view(table@) =~= Seq::empty());
    while i < m.len()
        invariant
            i <= m.len(),
            meta_key@ == "Meta Data"@,
            table_of(m@.subrange(0, i as int)) == Some(table_view(table@)),
            idx.len() == table@.len(),
            forall|t: int|
                0 <= t < idx.len() ==> 0 <= #[trigger] idx[t] < i && table@[t].0 == m@[idx[t]].0
                    && (m@[idx[t]].1 matches Json::Object(x) && (keys_unique(x@) ==> keys_unique(
                    table@[t].1@))),
            forall|a: int, b: int| 0 <= a < b < idx.len() ==> idx[a] < idx[b],
            *j == Json::Object(*m),
            time_series_of(*j) == (match table_of(m@) {
                Some(t) => Some((meta_data, t)),
                None => None,
            }),
        decreases m.len() - i,
    {
        assert(m@.subrange(0, i + 1).drop_last() =~= m@.subrange(0, i as int));
        if m[i].0 != meta_key {
            match decode_series(&m[i].1) {
                Ok(rows) => {
                    let ghost before = table@;
                    table.push((m[i].0.clone(), rows));
                    proof {
                        idx = idx.push(i as int);
                    }
                    assert(table_view(table@) =~= table_view(before).push((m@[i as int].0, rows@)));
                },
                Err(e) => {
                    proof {
                        assert(m@.subrange(0, i + 1).last() == m@[i as int]);
                        assert(table_of(m@.subrange(0, i + 1)) is None);
                        lemma_table_fail_extends(m@, i + 1, m.len() as int);
                        assert(m@.subrange(0, m.len() as int) =~= m@);
                    }
                    return Err(e);
                },
            }
        }
        i = i + 1;
    }
    assert(m@.subrange(0, m.len() as int) =~= m@);
    proof {
        if keys_unique(m@) && nested_keys_unique(m@) {
            assert forall|a: int, b: int| 0 <= a < b < table@.len() implies table@[a].0@
                != table@[b].0@ by {
                assert(idx[a] < idx[b]);
            }
            assert forall|t: int| 0 <= t < table@.len() implies keys_unique(
                #[trigger] table@[t].1@,
            ) by {
                assert(0 <= idx[t] < m.len());
                assert(m@[idx[t]].1 matches Json::Object(x) ==> keys_unique(x@));
            }
        }
    }
    Ok(TimeSeries { meta_data, time_series: table })
}

/// Decodes a time-series response from the text of a response body.
pub fn time_series_from_text(text: &str) -> (r: Result<TimeSeries, DecodeError>)
    ensures
        match parsed_json(text@) {
            None => r is Err,
            Some(j) => match r {
                Ok(v) => time_series_of(j) == Some((v.meta_data, v.table())),
                Err(_) => time_series_of(j) is None,
            },
        },
{
    match parse_json(text) {
        None => Err(malformed("")),
        Some(j) => decode_time_series(&j),
    }
}

impl TimeSeries {
    /// The record of the series labelled `label` at `timestamp`.
    pub fn item(&self, label: &str, timestamp: &str) -> (r: Option<TimeSeriesItem>)
        ensures
            r == (match first_with(self.time_series@, label@) {
                Some(rows) => first_with(rows@, timestamp@),
                None => None,
            }),
    {
        match index_of(&self.time_series, label) {
            Some(i) => match index_of(&self.time_series[i].1, timestamp) {
                Some(k) => Some(self.time_series[i].1[k].1),
                None => None,
            },
            None => None,
        }
    }

    /// How many series the record holds.
    pub fn series_count(&self) -> (r: usize)
        ensures
            r == self.table().len(),
    {
        self.time_series.len()
    }
}

/// Series labels are not fixed: two responses whose members hold the same
/// values, and have "Meta Data" at the same places, decode to tables with the
/// same rows in the same order, whatever the other labels are.
pub proof fn law_labels_are_free(m1: Seq<(String, Json)>, m2: Seq<(String, Json)>)
    requires
        m1.len() == m2.len(),
        forall|i: int|
            0 <= i < m1.len() ==> m1[i].1 == m2[i].1 && (m1[i].0@ == "Meta Data"@ <==> m2[i].0@
                == "Meta Data"@),
    ensures
        table_of(m1) is Some <==> table_of(m2) is Some,
        table_of(m1) is Some ==> table_of(m1)->Some_0.len() == table_of(m2)->Some_0.len() && (
        forall|k: int|
            0 <= k < table_of(m1)->Some_0.len() ==> #[trigger] table_of(m1)->Some_0[k].1
                == table_of(m2)->Some_0[k].1),
    decreases m1.len(),
{
    if m1.len() > 0 {
        law_labels_are_free(m1.drop_last(), m2.drop_last());
        let i = m1.len() - 1;
        assert(m1.last() == m1[i] && m2.last() == m2[i]);
        if table_of(m1) is Some && !(m1.last().0@ == "Meta Data"@) {
            let t1 = table_of(m1)->Some_0;
            let t2 = table_of(m2)->Some_0;
            assert forall|k: int| 0 <= k < t1.len() implies #[trigger] t1[k].1 == t2[k].1 by {
                if k < t1.len() - 1 {
                    assert(t1[k] == table_of(m1.drop_last())->Some_0[k]);
                    assert(t2[k] == table_of(m2.drop_last())->Some_0[k]);
                }
            }
        }
    }
}

/// Series labels are not fixed: in a decoded table, every member other than
/// "Meta Data" stands under its own label, whatever that label is and
/// wherever it stands, with the rows its value decodes to; and the table
/// holds nothing else.
pub proof fn law_every_label_is_a_series(m: Seq<(String, Json)>)
    requires
        table_of(m) is Some,
    ensures
        forall|i: int|
            0 <= i < m.len() && #[trigger] m[i].0@ != "Meta Data"@ ==> series_of(m[i].1) is Some
                && exists|k: int|
                0 <= k < table_of(m)->Some_0.len() && table_of(m)->Some_0[k] == (
                    m[i].0,
                    series_of(m[i].1)->Some_0,
                ),
        forall|k: int|
            0 <= k < table_of(m)->Some_0.len() ==> exists|i: int|
                0 <= i < m.len() && #[trigger] table_of(m)->Some_0[k] == (
                    m[i].0,
                    series_of(m[i].1)->Some_0,
                ) && m[i].0@ != "Meta Data"@ && series_of(m[i].1) is Some,
    decreases m.len(),
{
    if m.len() > 0 {
        let p = m.drop_last();
        law_every_label_is_a_series(p);
        let t = table_of(m)->Some_0;
        let tp = table_of(p)->Some_0;
        let n = m.len() - 1;
        assert(m.last() == m[n]);
        assert forall|i: int| 0 <= i < m.len() && #[trigger] m[i].0@ != "Meta Data"@ implies series_of(
            m[i].1,
        ) is Some && exists|k: int|
            0 <= k < t.len() && t[k] == (m[i].0, series_of(m[i].1)->Some_0) by {
            if i < n {
                assert(p[i] == m[i]);
                assert(p[i].0@ != "Meta Data"@);
                let k = choose|k: int|
                    0 <= k < tp.len() && tp[k] == (p[i].0, series_of(p[i].1)->Some_0);
                assert(t[k] == tp[k]);
            } else {
                assert(t[t.len() - 1] == (m[i].0, series_of(m[i].1)->Some_0));
            }
        }
        assert forall|k: int| 0 <= k < t.len() implies exists|i: int|
            0 <= i < m.len() && #[trigger] t[k] == (m[i].0, series_of(m[i].1)->Some_0) && m[i].0@
                != "Meta Data"@ && series_of(m[i].1) is Some by {
            if k < tp.len() {
                assert(t[k] == tp[k]);
                let i = choose|i: int|
                    0 <= i < p.len() && #[trigger] tp[k] == (p[i].0, series_of(p[i].1)->Some_0)
                        && p[i].0@ != "Meta Data"@ && series_of(p[i].1) is Some;
                assert(p[i] == m[i]);
            } else {
                assert(m[n].0@ != "Meta Data"@);
                assert(t[k] == (m[n].0, series_of(m[n].1)->Some_0));
            }
        }
    }
}

/// A series whose object has no members decodes to no rows, not to an error.
pub proof fn law_empty_series(j: Json)
    requires
        j matches Json::Object(m) && m@.len() == 0,
    ensures
        series_of(j) == Some(Seq::<(String, TimeSeriesItem)>::empty()),
{
}

/// Decoding the same body twice gives equal records.
pub proof fn law_time_series_repeatable(text: Seq<char>, a: TimeSeries, b: TimeSeries)
    requires
        parsed_json(text) matches Some(j) && time_series_of(j) == Some((a.meta_data, a.table())),
        parsed_json(text) matches Some(j) && time_series_of(j) == Some((b.meta_data, b.table())),
    ensures
        a.meta_data == b.meta_data,
        a.table() == b.table(),
{
}

} // verus!
