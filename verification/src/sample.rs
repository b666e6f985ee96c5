//! The per-tick sample set: a small association from source name to the
//! whole-degree Celsius reading taken this tick. Recreated every tick and
//! discarded after use.

use vstd::prelude::*;
use crate::sensor::{spec_reading_from_content, reading_from_content, SENTINEL_TEMP_C};

verus! {

/// First binding for `name` in `s`, if any.
pub open spec fn lookup_in(s: Seq<(String, u32)>, name: Seq<char>) -> Option<u32>
    decreases s.len(),
{
    if s.len() == 0 {
        None
    } else if s[0].0@ == name {
        Some(s[0].1)
    } else {
        lookup_in(s.drop_first(), name)
    }
}

/// Bindings before `i` never mention `name`, so the search may start at `i`.
proof fn lemma_lookup_skip(s: Seq<(String, u32)>, name: Seq<char>, i: int)
    requires
        0 <= i <= s.len(),
        forall|j: int| 0 <= j < i ==> s[j].0@ != name,
    ensures
        lookup_in(s, name) == lookup_in(s.skip(i), name),
    decreases i,
{
    if i > 0 {
        lemma_lookup_skip(s.drop_first(), name, i - 1);
        assert(s.drop_first().skip(i - 1) =~= s.skip(i));
    } else {
        assert(s.skip(0) =~= s);
    }
}

/// One tick's readings, keyed by source name. Inserting for a name already
/// present overrides the earlier binding.
pub struct SampleSet {
    samples: Vec<(String, u32)>,
}

impl SampleSet {
    /// The reading recorded for `name`, if one was.
    pub closed spec fn spec_lookup(&self, name: Seq<char>) -> Option<u32> {
        lookup_in(self.samples@, name)
    }

    /// An empty sample set: no source has reported yet.
    pub fn new() -> (s: SampleSet)
        ensures
            forall|n: Seq<char>| s.spec_lookup(n) == None::<u32>,
    {
        SampleSet { samples: Vec::new() }
    }

    /// Record `temp` for `name`, overriding any earlier reading for it and
    /// leaving every other name's reading as it was.
    pub fn insert(&mut self, name: String, temp: u32)
        ensures
            forall|n: Seq<char>|
                final(self).spec_lookup(n) == if n == name@ {
                    Some(temp)
                } else {
                    old(self).spec_lookup(n)
                },
    {
        let ghost before = self.samples@;
        self.samples.insert(0, (name, temp));
        proof {
            assert(self.samples@.drop_first() =~= before);
        }
    }

    /// Look the reading for `name` up.
    pub fn get(&self, name: &String) -> (r: Option<u32>)
        ensures
            r == self.spec_lookup(name@),
    {
        let n = self.samples.len();
        let mut i: usize = 0;
        while i < n
            invariant
                0 <= i <= n,
                n == self.samples@.len(),
                forall|j: int| 0 <= j < i ==> self.samples@[j].0@ != name@,
            decreases n - i,
        {
            if self.samples[i].0 == *name {
                proof {
                    lemma_lookup_skip(self.samples@, name@, i as int);
                    assert(self.samples@.skip(i as int)[0] == self.samples@[i as int]);
                }
                return Some(self.samples[i].1);
            }
            i = i + 1;
        }
        proof {
            lemma_lookup_skip(self.samples@, name@, n as int);
            assert(self.samples@.skip(n as int) =~= Seq::<(String, u32)>::empty());
        }
        None
    }
}

/// The reading recorded for one source this tick: its file's text parsed
/// and checked, or the sentinel outright when the file could not be read
/// at all (`None`).
pub open spec fn spec_recorded(item: (String, Option<String>)) -> u32 {
    match item.1 {
        Some(c) => spec_reading_from_content(c@),
        None => SENTINEL_TEMP_C,
    }
}

/// What a sample set built from `rs` holds under `n`: the recorded reading
/// of the last pair named `n`, if any pair is.
pub open spec fn spec_lookup_readings(rs: Seq<(String, Option<String>)>, n: Seq<char>) -> Option<
    u32,
>
    decreases rs.len(),
{
    if rs.len() == 0 {
        None
    } else if rs.last().0@ == n {
        Some(spec_recorded(rs.last()))
    } else {
        spec_lookup_readings(rs.drop_last(), n)
    }
}

/// Build one tick's sample set: each source's name paired with the text its
/// file yielded, or with `None` where the read itself failed. Every failure
/// collapses to the fail-safe sentinel.
pub fn build_sample_set(readings: &Vec<(String, Option<String>)>) -> (s: SampleSet)
    ensures
        forall|n: Seq<char>| s.spec_lookup(n) == spec_lookup_readings(readings@, n),
{
    let mut s = SampleSet::new();
    let n = readings.len();
    let mut i: usize = 0;
    while i < n
        invariant
            0 <= i <= n,
            n == readings@.len(),
            forall|m: Seq<char>|
                s.spec_lookup(m) == spec_lookup_readings(readings@.take(i as int), m),
        decreases n - i,
    {
        let item = &readings[i];
        let value: u32 = match &item.1 {
            Some(c) => reading_from_content(c.as_str()),
            None => SENTINEL_TEMP_C,
        };
        s.insert(item.0.clone(), value);
        proof {
            assert(readings@.take(i as int + 1).drop_last() =~= readings@.take(i as int));
            assert(readings@.take(i as int + 1).last() == readings@[i as int]);
        }
        i = i + 1;
    }
    proof {
        assert(readings@.take(n as int) =~= readings@);
    }
    s
}

} // verus!
