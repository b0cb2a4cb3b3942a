//! The normalized time series: elapsed whole seconds since the first sample,
//! paired with the verified water level, strictly increasing in time.

use vstd::prelude::*;

verus! {

/// Epoch seconds coming out of timestamp parsing stay within this bound.
pub const MAX_EPOCH_SECONDS: i64 = 10_000_000_000_000;

/// One normalized observation: whole seconds elapsed since the first sample,
/// and the verified water level at `LEVEL_SCALE` units per metre.
#[derive(Clone, Copy, PartialEq, Eq, Structural, Debug)]
pub struct DataPoint {
    pub time: i64,
    pub water_level: i64,
}

/// Why input was rejected.
#[derive(Clone, Copy, PartialEq, Eq, Structural, Debug)]
pub enum TideError {
    /// Zero usable records were handed in.
    EmptyInput,
    /// A record's date or time field failed to parse.
    MalformedTimestamp,
    /// Two adjacent samples do not advance in time.
    DegenerateSegment,
    /// A sweep was asked for with a non-positive step or inverted bounds.
    InvalidRange,
}

/// A raw ingested record: a `YYYY/MM/DD` date, an `HH:MM` time of day in UTC,
/// and the verified water level at `LEVEL_SCALE` units per metre.
pub struct WaterRecord {
    pub date: String,
    pub time: String,
    pub water_level: i64,
}

/// An ordered, immutable-after-construction water-level series.
pub struct DataSet {
    points: Vec<DataPoint>,
}

/// Adjacent times advance strictly.
pub open spec fn sorted_strict(s: Seq<(i64, i64)>) -> bool {
    forall|j: int| #![trigger s[j]] 0 <= j && j + 1 < s.len() ==> s[j].0 < s[j + 1].0
}

/// Some adjacent pair fails to advance in time.
pub open spec fn has_degenerate(s: Seq<(i64, i64)>) -> bool {
    exists|j: int| #![trigger s[j]] 0 <= j && j + 1 < s.len() && s[j + 1].0 <= s[j].0
}

/// Every record's timestamp parses.
pub open spec fn records_parse(rs: Seq<WaterRecord>) -> bool {
    forall|j: int|
        #![trigger rs[j]]
        0 <= j < rs.len() ==> ts_parse(rs[j].date@, rs[j].time@).is_some()
}

/// Adjacent parsed timestamps advance strictly.
pub open spec fn records_sorted_strict(rs: Seq<WaterRecord>) -> bool {
    forall|j: int|
        #![trigger rs[j]]
        0 <= j && j + 1 < rs.len() ==> ts_parse(rs[j].date@, rs[j].time@).unwrap() < ts_parse(
            rs[j + 1].date@,
            rs[j + 1].time@,
        ).unwrap()
}

/// Some adjacent pair of parsed timestamps fails to advance.
pub open spec fn records_degenerate(rs: Seq<WaterRecord>) -> bool {
    exists|j: int|
        #![trigger rs[j]]
        0 <= j && j + 1 < rs.len() && ts_parse(rs[j + 1].date@, rs[j + 1].time@).unwrap()
            <= ts_parse(rs[j].date@, rs[j].time@).unwrap()
}

impl View for DataSet {
    type V = Seq<DataPoint>;

    closed spec fn view(&self) -> Seq<DataPoint> {
        self.points@
    }
}

impl DataSet {
    /// A well-formed series: non-empty, zero-based, strictly increasing.
    pub open spec fn wf(self) -> bool {
        &&& self@.len() >= 1
        &&& self@[0].time == 0
        &&& forall|j: int|
            #![trigger self@[j]]
            0 <= j && j + 1 < self@.len() ==> self@[j].time < self@[j + 1].time
    }

    /// Number of points.
    pub fn len(&self) -> (r: usize)
        ensures
            r == self@.len(),
    {
        self.points.len()
    }

    /// The point at a position.
    pub fn point_at(&self, i: usize) -> (r: DataPoint)
        requires
            i < self@.len(),
        ensures
            r == self@[i as int],
    {
        self.points[i]
    }

    /// Builds the series from `(epoch seconds, water level)` pairs: the first
    /// sample is taken as time zero and every time becomes the whole seconds
    /// elapsed since it. Succeeds exactly on non-empty, strictly
    /// time-increasing input; a pair of adjacent samples that does not advance
    /// in time is rejected as a degenerate segment.
    pub fn from_samples(samples: &Vec<(i64, i64)>) -> (r: Result<DataSet, TideError>)
        requires
            forall|j: int|
                #![trigger samples@[j]]
                0 <= j < samples@.len() ==> -MAX_EPOCH_SECONDS <= samples@[j].0
                    <= MAX_EPOCH_SECONDS,
        ensures
            r == Err::<DataSet, TideError>(TideError::EmptyInput) <==> samples@.len() == 0,
            r == Err::<DataSet, TideError>(TideError::DegenerateSegment) <==> samples@.len() > 0
                && has_degenerate(samples@),
            r.is_ok() <==> samples@.len() > 0 && sorted_strict(samples@),
            r.is_ok() ==> {
                &&& r.unwrap().wf()
                &&& r.unwrap()@.len() == samples@.len()
                &&& forall|j: int|
                    #![trigger r.unwrap()@[j]]
                    0 <= j < samples@.len() ==> r.unwrap()@[j].time == samples@[j].0
                        - samples@[0].0 && r.unwrap()@[j].water_level == samples@[j].1
            },
    {
        let n = samples.len();
        if n == 0 {
            return Err(TideError::EmptyInput);
        }
        let t0: i64 = samples[0].0;
        let mut pts: Vec<DataPoint> = Vec::new();
        let mut i: usize = 0;
        while i < n
            invariant
                i <= n,
                n == samples@.len(),
                n >= 1,
                t0 == samples@[0].0,
                forall|j: int|
                    #![trigger samples@[j]]
                    0 <= j < samples@.len() ==> -MAX_EPOCH_SECONDS <= samples@[j].0
                        <= MAX_EPOCH_SECONDS,
                pts@.len() == i,
                forall|j: int|
                    #![trigger pts@[j]]
                    0 <= j < i ==> pts@[j].time == samples@[j].0 - samples@[0].0
                        && pts@[j].water_level == samples@[j].1,
                forall|j: int| #![trigger samples@[j]] 0 <= j && j + 1 < i ==> samples@[j].0
                    < samples@[j + 1].0,
            decreases n - i,
        {
            if i > 0 && samples[i].0 <= samples[i - 1].0 {
                proof {
                    assert(samples@[i - 1].0 >= samples@[i - 1 + 1].0);
                }
                return Err(TideError::DegenerateSegment);
            }
            let t: i64 = samples[i].0 - t0;
            pts.push(
                DataPoint { time: t, water_level: samples[i].1 },
            );
            i += 1;
        }
        let ds = DataSet { points: pts };
        proof {
            assert(sorted_strict(samples@));
            assert(ds@[0].time == 0);
        }
        Ok(ds)
    }

    /// Builds the series from raw records by parsing each timestamp, then
    /// normalizing as `from_samples` does. A record whose timestamp does not
    /// parse is rejected as malformed; the scan stops at the first such
    /// record.
    pub fn from_records(records: &Vec<WaterRecord>) -> (r: Result<DataSet, TideError>)
        ensures
            r == Err::<DataSet, TideError>(TideError::EmptyInput) <==> records@.len() == 0,
            r == Err::<DataSet, TideError>(TideError::MalformedTimestamp) <==> records@.len() > 0
                && exists|j: int|
                #![trigger records@[j]]
                0 <= j < records@.len() && ts_parse(records@[j].date@, records@[j].time@).is_none(),
            r.is_ok() <==> records@.len() > 0 && records_parse(records@)
                && records_sorted_strict(records@),
            r == Err::<DataSet, TideError>(TideError::DegenerateSegment) <==> records@.len() > 0
                && records_parse(records@) && records_degenerate(records@),
            r.is_ok() || r == Err::<DataSet, TideError>(TideError::EmptyInput) || r == Err::<
                DataSet,
                TideError,
            >(TideError::MalformedTimestamp) || r == Err::<DataSet, TideError>(
                TideError::DegenerateSegment,
            ),
            r.is_ok() ==> {
                &&& records@.len() > 0
                &&& forall|j: int|
                    #![trigger records@[j]]
                    0 <= j < records@.len() ==> ts_parse(
                        records@[j].date@,
                        records@[j].time@,
                    ).is_some()
                &&& r.unwrap().wf()
                &&& r.unwrap()@.len() == records@.len()
                &&& forall|j: int|
                    #![trigger r.unwrap()@[j]]
                    0 <= j < records@.len() ==> r.unwrap()@[j].time == ts_parse(
                        records@[j].date@,
                        records@[j].time@,
                    ).unwrap() - ts_parse(records@[0].date@, records@[0].time@).unwrap()
                        && r.unwrap()@[j].water_level == records@[j].water_level
            },
    {
        let n = records.len();
        if n == 0 {
            return Err(TideError::EmptyInput);
        }
        let mut samples: Vec<(i64, i64)> = Vec::new();
        let mut i: usize = 0;
        while i < n
            invariant
                i <= n,
                n == records@.len(),
                samples@.len() == i,
                forall|j: int|
                    #![trigger records@[j]]
                    0 <= j < i ==> ts_parse(records@[j].date@, records@[j].time@).is_some(),
                forall|j: int|
                    #![trigger samples@[j]]
                    0 <= j < i ==> samples@[j].0 == ts_parse(
                        records@[j].date@,
                        records@[j].time@,
                    ).unwrap() && samples@[j].1 == records@[j].water_level
                        && -MAX_EPOCH_SECONDS <= samples@[j].0 <= MAX_EPOCH_SECONDS,
            decreases n - i,
        {
            let rec = &records[i];
            match parse_timestamp(rec.date.as_str(), rec.time.as_str()) {
                Some(ts) => {
                    samples.push((ts, rec.water_level));
                },
                None => {
                    return Err(TideError::MalformedTimestamp);
                },
            }
            i += 1;
        }
        let built = DataSet::from_samples(&samples);
        proof {
            assert(records_parse(records@));
            if sorted_strict(samples@) {
                assert forall|j: int|
                    #![trigger records@[j]]
                    0 <= j && j + 1 < records@.len() implies ts_parse(
                    records@[j].date@,
                    records@[j].time@,
                ).unwrap() < ts_parse(records@[j + 1].date@, records@[j + 1].time@).unwrap() by {
                    assert(samples@[j].0 < samples@[j + 1].0);
                    assert(samples@[j].0 == ts_parse(records@[j].date@, records@[j].time@).unwrap());
                    assert(samples@[j + 1].0 == ts_parse(
                        records@[j + 1].date@,
                        records@[j + 1].time@,
                    ).unwrap());
                }
            }
            if records_sorted_strict(records@) {
                assert forall|j: int|
                    #![trigger samples@[j]]
                    0 <= j && j + 1 < samples@.len() implies samples@[j].0 < samples@[j + 1].0 by {
                    assert(samples@[j + 1].0 == ts_parse(
                        records@[j + 1].date@,
                        records@[j + 1].time@,
                    ).unwrap());
                    assert(ts_parse(records@[j].date@, records@[j].time@).unwrap() < ts_parse(
                        records@[j + 1].date@,
                        records@[j + 1].time@,
                    ).unwrap());
                }
            }
            if has_degenerate(samples@) {
                let j = choose|j: int|
                    #![trigger samples@[j]]
                    0 <= j && j + 1 < samples@.len() && samples@[j + 1].0 <= samples@[j].0;
                assert(samples@[j + 1].0 == ts_parse(
                    records@[j + 1].date@,
                    records@[j + 1].time@,
                ).unwrap());
                assert(ts_parse(records@[j + 1].date@, records@[j + 1].time@).unwrap() <= ts_parse(
                    records@[j].date@,
                    records@[j].time@,
                ).unwrap());
                assert(records_degenerate(records@));
            }
            if records_degenerate(records@) {
                let j = choose|j: int|
                    #![trigger records@[j]]
                    0 <= j && j + 1 < records@.len() && ts_parse(
                        records@[j + 1].date@,
                        records@[j + 1].time@,
                    ).unwrap() <= ts_parse(records@[j].date@, records@[j].time@).unwrap();
                assert(samples@[j + 1].0 <= samples@[j].0);
                assert(has_degenerate(samples@));
            }
        }
        built
    }

    /// The underlying points, for summation helpers.
    pub(crate) fn points_ref(&self) -> (r: &Vec<DataPoint>)
        ensures
            r@ == self@,
    {
        &self.points
    }

    /// The length of the covered period: last elapsed time minus first.
    pub fn period_length(&self) -> (r: i64)
        requires
            self.wf(),
        ensures
            r == self@[self@.len() - 1].time - self@[0].time,
            r == self@[self@.len() - 1].time,
    {
        let n = self.points.len();
        self.points[n - 1].time - self.points[0].time
    }
}

/// What chrono's parsing returns for a date and a time-of-day text: the UTC
/// epoch seconds of the instant they name, or nothing when they do not parse.
pub uninterp spec fn ts_parse(date: Seq<char>, time: Seq<char>) -> Option<int>;

/// Relies on chrono's `NaiveDateTime::parse_from_str` with format
/// `"%Y/%m/%d %H:%M"`, and on `DateTime::<Utc>::timestamp`, for turning a
/// date and a time-of-day into UTC epoch seconds. The result depends on the
/// two texts alone, and chrono's datetime range (about ±262,000 years) keeps
/// the epoch seconds within `MAX_EPOCH_SECONDS`.
#[verifier::external_body]
fn parse_timestamp(date: &str, time: &str) -> (r: Option<i64>)
    ensures
        r.is_some() <==> ts_parse(date@, time@).is_some(),
        r.is_some() ==> r.unwrap() == ts_parse(date@, time@).unwrap() && -MAX_EPOCH_SECONDS
            <= r.unwrap() <= MAX_EPOCH_SECONDS,
{
    let joined = format!("{} {}", date, time);
    match chrono::NaiveDateTime::parse_from_str(&joined, "%Y/%m/%d %H:%M") {
        Ok(dt) => Some(dt.and_utc().timestamp()),
        Err(_) => None,
    }
}

/// Shifting every timestamp by one constant changes nothing the series keeps:
/// elapsed times and levels come out identical, and validity is unchanged, so
/// the whole amplitude spectrum is unaffected by the shift.
pub proof fn lemma_time_shift(s1: Seq<(i64, i64)>, s2: Seq<(i64, i64)>, d: int)
    requires
        s1.len() == s2.len(),
        forall|j: int|
            #![trigger s2[j]]
            0 <= j < s1.len() ==> s2[j].0 == s1[j].0 + d && s2[j].1 == s1[j].1,
    ensures
        sorted_strict(s1) <==> sorted_strict(s2),
        has_degenerate(s1) <==> has_degenerate(s2),
        forall|j: int|
            #![trigger s2[j]]
            0 <= j < s1.len() ==> s2[j].0 - s2[0].0 == s1[j].0 - s1[0].0,
{
    assert forall|j: int| #![trigger s1[j]] 0 <= j && j + 1 < s1.len() implies (s1[j].0 < s1[j
        + 1].0 <==> s2[j].0 < s2[j + 1].0) by {
        assert(s2[j].0 == s1[j].0 + d);
        assert(s2[j + 1].0 == s1[j + 1].0 + d);
    }
    if sorted_strict(s1) {
        assert forall|j: int| #![trigger s2[j]] 0 <= j && j + 1 < s2.len() implies s2[j].0 < s2[j
            + 1].0 by {
            assert(s1[j].0 < s1[j + 1].0);
        }
    }
    if sorted_strict(s2) {
        assert forall|j: int| #![trigger s1[j]] 0 <= j && j + 1 < s1.len() implies s1[j].0 < s1[j
            + 1].0 by {
            assert(s2[j].0 < s2[j + 1].0);
        }
    }
    if has_degenerate(s1) {
        let j = choose|j: int| #![trigger s1[j]] 0 <= j && j + 1 < s1.len() && s1[j + 1].0 <= s1[j].0;
        assert(s2[j + 1].0 <= s2[j].0);
    }
    if has_degenerate(s2) {
        let j = choose|j: int| #![trigger s2[j]] 0 <= j && j + 1 < s2.len() && s2[j + 1].0 <= s2[j].0;
        assert(s1[j + 1].0 <= s1[j].0);
    }
}

} // verus!
