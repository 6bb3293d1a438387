//! Metric data points and their dimension sets.

use vstd::prelude::*;
use vstd::string::StringExecFns;

verus! {

/// The dimension entries as a mapping, later entries shadowing earlier ones
/// with the same name.
spec fn map_of(entries: Seq<(String, String)>) -> Map<Seq<char>, Seq<char>>
    decreases entries.len(),
{
    if entries.len() == 0 {
        Map::empty()
    } else {
        map_of(entries.drop_last()).insert(entries.last().0@, entries.last().1@)
    }
}

/// No two entries share a name.
spec fn distinct_keys(entries: Seq<(String, String)>) -> bool {
    forall|i: int, j: int|
        0 <= i < j < entries.len() ==> (#[trigger] entries[i]).0@ != (#[trigger] entries[j]).0@
}

proof fn lemma_map_of_dom(entries: Seq<(String, String)>, k: Seq<char>)
    ensures
        map_of(entries).contains_key(k) <==> exists|i: int|
            0 <= i < entries.len() && (#[trigger] entries[i]).0@ == k,
    decreases entries.len(),
{
    if entries.len() > 0 {
        lemma_map_of_dom(entries.drop_last(), k);
        if entries.last().0@ == k {
            assert(entries[entries.len() - 1].0@ == k);
        } else if map_of(entries).contains_key(k) {
            let i = choose|i: int| 0 <= i < entries.drop_last().len() && (#[trigger] entries.drop_last()[i]).0@ == k;
            assert(entries[i].0@ == k);
        } else {
            assert forall|i: int| 0 <= i < entries.len() implies (#[trigger] entries[i]).0@ != k by {
                if i < entries.len() - 1 {
                    assert(entries.drop_last()[i].0@ != k);
                }
            }
        }
    }
}

proof fn lemma_map_of_found(entries: Seq<(String, String)>, i: int)
    requires
        distinct_keys(entries),
        0 <= i < entries.len(),
    ensures
        map_of(entries).contains_key(entries[i].0@),
        map_of(entries)[entries[i].0@] == entries[i].1@,
    decreases entries.len(),
{
    if i == entries.len() - 1 {
    } else {
        lemma_map_of_found(entries.drop_last(), i);
        assert(entries.drop_last()[i] == entries[i]);
        assert(entries[i].0@ != entries.last().0@);
    }
}

proof fn lemma_map_of_len(entries: Seq<(String, String)>)
    requires
        distinct_keys(entries),
    ensures
        map_of(entries).dom().finite(),
        map_of(entries).dom().len() == entries.len(),
    decreases entries.len(),
{
    if entries.len() > 0 {
        lemma_map_of_len(entries.drop_last());
        lemma_map_of_dom(entries.drop_last(), entries.last().0@);
        assert forall|i: int| 0 <= i < entries.drop_last().len() implies (
        #[trigger] entries.drop_last()[i]).0@ != entries.last().0@ by {
            assert(entries[i].0@ != entries[entries.len() - 1].0@);
        }
        assert(!map_of(entries.drop_last()).dom().contains(entries.last().0@));
        assert(map_of(entries).dom() =~= map_of(entries.drop_last()).dom().insert(
            entries.last().0@,
        ));
    }
}

proof fn lemma_map_of_update(entries: Seq<(String, String)>, i: int, name: String, value: String)
    requires
        distinct_keys(entries),
        0 <= i < entries.len(),
        entries[i].0@ == name@,
    ensures
        map_of(entries.update(i, (name, value))) == map_of(entries).insert(name@, value@),
    decreases entries.len(),
{
    let upd = entries.update(i, (name, value));
    if i == entries.len() - 1 {
        assert(upd.drop_last() =~= entries.drop_last());
        assert(map_of(upd) == map_of(entries.drop_last()).insert(name@, value@));
        assert(map_of(entries).insert(name@, value@) =~= map_of(entries.drop_last()).insert(
            name@,
            value@,
        ));
    } else {
        assert(upd.drop_last() =~= entries.drop_last().update(i, (name, value)));
        assert(upd.last() == entries.last());
        assert(entries.drop_last()[i] == entries[i]);
        lemma_map_of_update(entries.drop_last(), i, name, value);
        assert(entries[i].0@ != entries.last().0@);
        assert(map_of(upd) == map_of(entries.drop_last()).insert(name@, value@).insert(
            entries.last().0@,
            entries.last().1@,
        ));
        assert(map_of(entries.drop_last()).insert(name@, value@).insert(
            entries.last().0@,
            entries.last().1@,
        ) =~= map_of(entries.drop_last()).insert(entries.last().0@, entries.last().1@).insert(
            name@,
            value@,
        ));
    }
}

/// The dimensions of one metric data point: a mapping from dimension name to
/// dimension value, keys unique, built per row from the row's non-count
/// columns.
#[derive(Debug)]
pub struct DimensionSet {
    entries: Vec<(String, String)>,
}

impl View for DimensionSet {
    type V = Map<Seq<char>, Seq<char>>;

    closed spec fn view(&self) -> Map<Seq<char>, Seq<char>> {
        map_of(self.entries@)
    }
}

impl DimensionSet {
    #[verifier::type_invariant]
    spec fn inv(self) -> bool {
        distinct_keys(self.entries@)
    }

    /// An empty dimension set.
    pub fn new() -> (r: DimensionSet)
        ensures
            r@ == Map::<Seq<char>, Seq<char>>::empty(),
    {
        DimensionSet { entries: Vec::new() }
    }

    /// Binds a dimension name to a value, replacing any earlier binding of
    /// the same name.
    pub fn insert(&mut self, name: String, value: String)
        ensures
            final(self)@ == old(self)@.insert(name@, value@),
    {
        proof {
            use_type_invariant(&*self);
        }
        let mut entries: Vec<(String, String)> = Vec::new();
        std::mem::swap(&mut entries, &mut self.entries);
        let n = entries.len();
        let mut idx: usize = n;
        for i in 0..n
            invariant
                n == entries@.len(),
                entries@ == old(self).entries@,
                distinct_keys(entries@),
                idx == n || (idx < i && entries@[idx as int].0@ == name@),
                idx == n ==> forall|j: int| 0 <= j < i ==> (#[trigger] entries@[j]).0@ != name@,
        {
            if idx == n && entries[i].0 == name {
                idx = i;
            }
        }
        if idx < n {
            proof {
                lemma_map_of_update(entries@, idx as int, name, value);
                assert(distinct_keys(entries@.update(idx as int, (name, value)))) by {
                    assert(forall|j: int|
                        0 <= j < entries@.len() && j != idx
                            ==> (#[trigger] entries@.update(idx as int, (name, value))[j])
                            == entries@[j]);
                }
            }
            entries[idx] = (name, value);
        } else {
            proof {
                assert(entries@.push((name, value)).drop_last() =~= entries@);
            }
            entries.push((name, value));
        }
        self.entries = entries;
    }

    /// Looks a dimension name up.
    pub fn get(&self, name: &String) -> (r: Option<&String>)
        ensures
            match r {
                Some(v) => self@.contains_key(name@) && v@ == self@[name@],
                None => !self@.contains_key(name@),
            },
    {
        proof {
            use_type_invariant(&*self);
        }
        let n = self.entries.len();
        for i in 0..n
            invariant
                n == self.entries@.len(),
                distinct_keys(self.entries@),
                forall|j: int| 0 <= j < i ==> (#[trigger] self.entries@[j]).0@ != name@,
        {
            if self.entries[i].0 == *name {
                proof {
                    lemma_map_of_found(self.entries@, i as int);
                }
                return Some(&self.entries[i].1);
            }
        }
        proof {
            lemma_map_of_dom(self.entries@, name@);
        }
        None
    }

    /// How many dimensions are bound.
    pub fn len(&self) -> (n: usize)
        ensures
            n as nat == self@.dom().len(),
    {
        proof {
            use_type_invariant(&*self);
            lemma_map_of_len(self.entries@);
        }
        self.entries.len()
    }

    /// Whether no dimension is bound.
    pub fn is_empty(&self) -> (b: bool)
        ensures
            b == (self@ == Map::<Seq<char>, Seq<char>>::empty()),
    {
        proof {
            use_type_invariant(&*self);
            lemma_map_of_len(self.entries@);
            if self.entries@.len() == 0 {
                assert(self@ =~= Map::<Seq<char>, Seq<char>>::empty());
            } else {
                lemma_map_of_found(self.entries@, 0);
            }
        }
        self.entries.len() == 0
    }
}

/// One metric data point, ready for delivery to the monitoring sink. The
/// unit is always a count; the timestamp is the capture time the caller
/// passed at projection.
#[derive(Debug)]
pub struct MetricDataPoint {
    pub name: String,
    pub namespace: String,
    pub value: i64,
    pub timestamp_millis: u64,
    pub dimensions: DimensionSet,
}

impl MetricDataPoint {
    /// The fixed unit every data point is reported under.
    pub fn unit(&self) -> (r: &'static str)
        ensures
            r@ == "count"@,
    {
        "count"
    }
}

/// The namespace a group's metrics are reported under.
pub open spec fn spec_namespace(group: Seq<char>) -> Seq<char> {
    "DataLake/"@ + group
}

/// Derives the metric namespace from a group name.
pub fn namespace_for(group: &String) -> (r: String)
    ensures
        r@ == spec_namespace(group@),
{
    let mut s: String = String::from_str("DataLake/");
    s.append(group.as_str());
    s
}

} // verus!
