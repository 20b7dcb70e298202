//! The temperature aggregator: reduces the raw readings of one poll cycle to
//! a single representative temperature, the hottest value seen across the
//! host.

use vstd::prelude::*;

verus! {

/// What a single sensor sub-feature yielded when it was read. Only the
/// temperature-input variant carries a usable value, in centidegrees;
/// readings of other physical quantities and failed reads are retained so
/// that the aggregator can be seen to skip them.
#[derive(Clone, Copy, Debug, PartialEq, Eq, Structural)]
pub enum SensorValue {
    /// A successfully decoded temperature, in centidegrees.
    TemperatureInput(i64),
    /// A reading of some other physical quantity (voltage, fan speed, ...).
    OtherQuantity,
    /// The sub-feature could not be read.
    Unreadable,
}

/// One raw reading with its provenance: the chip and feature it came from.
/// Ephemeral, produced per poll and discarded after aggregation.
#[derive(Clone, Copy, Debug, PartialEq, Eq, Structural)]
pub struct Reading {
    /// Index of the chip the reading came from.
    pub chip: u64,
    /// Index of the feature within the chip.
    pub feature: u64,
    /// What the read produced.
    pub value: SensorValue,
}

/// The exact maximum over the temperature-input readings of one poll cycle,
/// negative values included, or `None` when the cycle produced no
/// temperature reading at all. Readings of other kinds and failed reads are
/// skipped.
pub open spec fn spec_max_reading(s: Seq<Reading>) -> Option<int>
    decreases s.len(),
{
    if s.len() == 0 {
        None
    } else {
        let prev = spec_max_reading(s.drop_last());
        match s.last().value {
            SensorValue::TemperatureInput(v) => match prev {
                Some(p) => if v > p {
                    Some(v as int)
                } else {
                    Some(p)
                },
                None => Some(v as int),
            },
            _ => prev,
        }
    }
}

/// The aggregate temperature of a poll cycle: the maximum of the
/// temperature-input readings when there is at least one, and the "no data"
/// sentinel 0 only when there is none.
pub open spec fn spec_sample(s: Seq<Reading>) -> int {
    match spec_max_reading(s) {
        Some(m) => m,
        None => 0,
    }
}

/// Reduces one poll cycle's readings to the aggregate temperature, in
/// centidegrees. Never fails: unreadable or non-temperature readings are
/// skipped silently, and only a cycle without any temperature reading — the
/// empty sensor set included — yields the sentinel 0.
pub fn sample(readings: &Vec<Reading>) -> (t: i64)
    ensures
        t == spec_sample(readings@),
        spec_max_reading(readings@) matches Some(m) ==> t == m,
        spec_max_reading(readings@) is None ==> t == 0,
{
    let mut acc: Option<i64> = None;
    let mut i: usize = 0;
    while i < readings.len()
        invariant
            0 <= i <= readings@.len(),
            match acc {
                Some(a) => spec_max_reading(readings@.take(i as int)) == Some(a as int),
                None => spec_max_reading(readings@.take(i as int)) is None,
            },
        decreases readings@.len() - i,
    {
        proof {
            assert(readings@.take(i + 1).drop_last() =~= readings@.take(i as int));
            assert(readings@.take(i + 1).last() == readings@[i as int]);
        }
        match readings[i].value {
            SensorValue::TemperatureInput(v) => {
                acc = match acc {
                    Some(p) => if v > p {
                        Some(v)
                    } else {
                        Some(p)
                    },
                    None => Some(v),
                };
            },
            _ => {},
        }
        i = i + 1;
    }
    proof {
        assert(readings@.take(readings@.len() as int) =~= readings@);
    }
    match acc {
        Some(m) => m,
        None => 0,
    }
}

/// The exact maximum is absent precisely when the cycle has no
/// temperature-input reading; when present it fits an `i64`, is itself one
/// of the temperature readings, and no temperature reading exceeds it.
pub proof fn lemma_max_reading_bounds(s: Seq<Reading>)
    ensures
        (spec_max_reading(s) is None) <==> (forall|i: int|
            0 <= i < s.len() ==> !((#[trigger] s[i]).value is TemperatureInput)),
        spec_max_reading(s) matches Some(m) ==> i64::MIN <= m <= i64::MAX && (exists|i: int|
            0 <= i < s.len() && s[i].value == SensorValue::TemperatureInput(m as i64)),
        forall|i: int|
            0 <= i < s.len() ==> ((#[trigger] s[i]).value matches SensorValue::TemperatureInput(
                v,
            ) ==> spec_max_reading(s) matches Some(m) && v <= m),
    decreases s.len(),
{
    if s.len() > 0 {
        lemma_max_reading_bounds(s.drop_last());
        let prev = spec_max_reading(s.drop_last());
        let r = spec_max_reading(s);
        assert(forall|i: int| 0 <= i < s.len() - 1 ==> s[i] == s.drop_last()[i]);
        if prev is Some {
            let p = prev.unwrap();
            let j = choose|j: int|
                0 <= j < s.drop_last().len() && s.drop_last()[j].value
                    == SensorValue::TemperatureInput(p as i64);
            if r == prev {
                assert(s[j].value == SensorValue::TemperatureInput(p as i64));
            }
        }
        if r != prev || (prev is None && s.last().value is TemperatureInput) {
            assert(s[s.len() - 1].value == SensorValue::TemperatureInput(r.unwrap() as i64));
        }
    }
}

/// Exactness of aggregation: over a cycle with at least one temperature
/// reading — negative values included — the aggregate is itself one of the
/// temperature readings and no temperature reading exceeds it: it is
/// exactly their maximum, and not the sentinel's floor.
pub proof fn lemma_sample_is_max(s: Seq<Reading>)
    requires
        exists|i: int| 0 <= i < s.len() && (#[trigger] s[i]).value is TemperatureInput,
    ensures
        exists|i: int|
            0 <= i < s.len() && s[i].value == SensorValue::TemperatureInput(
                spec_sample(s) as i64,
            ),
        forall|i: int|
            0 <= i < s.len() ==> ((#[trigger] s[i]).value matches SensorValue::TemperatureInput(
                v,
            ) ==> v <= spec_sample(s)),
{
    lemma_max_reading_bounds(s);
    let w = choose|i: int| 0 <= i < s.len() && (#[trigger] s[i]).value is TemperatureInput;
    assert(!(spec_max_reading(s) is None));
}

/// Order independence: the aggregate depends only on which readings were
/// collected, not on the order the chips and features were enumerated in.
pub proof fn lemma_sample_order_independent(s1: Seq<Reading>, s2: Seq<Reading>)
    requires
        s1.to_multiset() == s2.to_multiset(),
    ensures
        spec_sample(s1) == spec_sample(s2),
{
    lemma_max_reading_bounds(s1);
    lemma_max_reading_bounds(s2);
    s1.to_multiset_ensures();
    s2.to_multiset_ensures();
    if spec_max_reading(s1) is None {
        assert forall|j: int| 0 <= j < s2.len() implies !((#[trigger] s2[j]).value
            is TemperatureInput) by {
            assert(s2.contains(s2[j]));
            assert(s2.to_multiset().count(s2[j]) > 0);
            assert(s1.to_multiset().count(s2[j]) > 0);
            assert(s1.contains(s2[j]));
            let k = choose|k: int| 0 <= k < s1.len() && s1[k] == s2[j];
            assert(!(s1[k].value is TemperatureInput));
        }
        assert(spec_max_reading(s2) is None);
    }
    if spec_max_reading(s2) is None {
        assert forall|j: int| 0 <= j < s1.len() implies !((#[trigger] s1[j]).value
            is TemperatureInput) by {
            assert(s1.contains(s1[j]));
            assert(s1.to_multiset().count(s1[j]) > 0);
            assert(s2.to_multiset().count(s1[j]) > 0);
            assert(s2.contains(s1[j]));
            let k = choose|k: int| 0 <= k < s2.len() && s2[k] == s1[j];
            assert(!(s2[k].value is TemperatureInput));
        }
        assert(spec_max_reading(s1) is None);
    }
    if spec_max_reading(s1) is Some && spec_max_reading(s2) is Some {
        let m1 = spec_max_reading(s1).unwrap();
        let m2 = spec_max_reading(s2).unwrap();
        let i1 = choose|i: int|
            0 <= i < s1.len() && s1[i].value == SensorValue::TemperatureInput(m1 as i64);
        assert(s1.contains(s1[i1]));
        assert(s1.to_multiset().count(s1[i1]) > 0);
        assert(s2.to_multiset().count(s1[i1]) > 0);
        assert(s2.contains(s1[i1]));
        let j1 = choose|j: int| 0 <= j < s2.len() && s2[j] == s1[i1];
        assert(s2[j1].value == SensorValue::TemperatureInput(m1 as i64));
        assert(m1 as i64 <= m2);

        let i2 = choose|i: int|
            0 <= i < s2.len() && s2[i].value == SensorValue::TemperatureInput(m2 as i64);
        assert(s2.contains(s2[i2]));
        assert(s2.to_multiset().count(s2[i2]) > 0);
        assert(s1.to_multiset().count(s2[i2]) > 0);
        assert(s1.contains(s2[i2]));
        let j2 = choose|j: int| 0 <= j < s1.len() && s1[j] == s2[i2];
        assert(s1[j2].value == SensorValue::TemperatureInput(m2 as i64));
        assert(m2 as i64 <= m1);
    }
}

} // verus!
