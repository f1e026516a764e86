use vstd::prelude::*;

verus! {

/// A multi-valued mapping: each entry is a name with its values in insertion
/// order; names appear in the order of their first insertion.
pub type Entries = Seq<(Seq<char>, Seq<Seq<char>>)>;

/// A flat sequence of (name, value) pairs.
pub type Pairs = Seq<(Seq<char>, Seq<char>)>;

/// The position of the first entry named `k`, or -1 where there is none.
pub open spec fn key_index(e: Entries, k: Seq<char>) -> int
    decreases e.len(),
{
    if e.len() == 0 {
        -1
    } else {
        let j = key_index(e.drop_last(), k);
        if j >= 0 {
            j
        } else if e.last().0 == k {
            e.len() - 1
        } else {
            -1
        }
    }
}

/// Adds one value under a name: at the end of that name's values, or as a
/// new entry after all others.
pub open spec fn insert_pair(e: Entries, k: Seq<char>, v: Seq<char>) -> Entries {
    let j = key_index(e, k);
    if j >= 0 {
        e.update(j, (k, e[j].1.push(v)))
    } else {
        e.push((k, seq![v]))
    }
}

/// Inserts pairs one after another into `e`.
pub open spec fn insert_all(e: Entries, p: Pairs) -> Entries
    decreases p.len(),
{
    if p.len() == 0 {
        e
    } else {
        insert_pair(insert_all(e, p.drop_last()), p.last().0, p.last().1)
    }
}

/// Groups flat pairs into a multi-valued mapping.
pub open spec fn group(p: Pairs) -> Entries {
    insert_all(Seq::empty(), p)
}

/// The pairs of one entry, one for each of its values.
pub open spec fn entry_pairs(k: Seq<char>, vs: Seq<Seq<char>>) -> Pairs {
    Seq::new(vs.len(), |i: int| (k, vs[i]))
}

/// Flattens a mapping into one pair for each (name, value), entry by entry.
pub open spec fn flatten(e: Entries) -> Pairs
    decreases e.len(),
{
    if e.len() == 0 {
        Seq::empty()
    } else {
        flatten(e.drop_last()) + entry_pairs(e.last().0, e.last().1)
    }
}

/// No two entries have the same name.
pub open spec fn names_unique(e: Entries) -> bool {
    forall|i: int, j: int| 0 <= i < j < e.len() ==> e[i].0 != e[j].0
}

/// Every entry has at least one value.
pub open spec fn values_nonempty(e: Entries) -> bool {
    forall|i: int| 0 <= i < e.len() ==> e[i].1.len() > 0
}

pub proof fn lemma_key_index(e: Entries, k: Seq<char>)
    ensures
        -1 <= key_index(e, k) < e.len(),
        key_index(e, k) == -1 <==> forall|i: int| 0 <= i < e.len() ==> e[i].0 != k,
        key_index(e, k) >= 0 ==> e[key_index(e, k)].0 == k,
        forall|i: int| 0 <= i < key_index(e, k) ==> e[i].0 != k,
    decreases e.len(),
{
    if e.len() > 0 {
        lemma_key_index(e.drop_last(), k);
        let d = e.drop_last();
        assert(forall|i: int| 0 <= i < d.len() ==> d[i] == e[i]);
    }
}

pub proof fn lemma_insert_keeps_unique(e: Entries, k: Seq<char>, v: Seq<char>)
    requires
        names_unique(e),
    ensures
        names_unique(insert_pair(e, k, v)),
        values_nonempty(e) ==> values_nonempty(insert_pair(e, k, v)),
{
    lemma_key_index(e, k);
}

proof fn lemma_insert_all_concat(e: Entries, a: Pairs, b: Pairs)
    ensures
        insert_all(e, a + b) == insert_all(insert_all(e, a), b),
    decreases b.len(),
{
    if b.len() == 0 {
        assert(a + b =~= a);
    } else {
        assert((a + b).drop_last() =~= a + b.drop_last());
        assert((a + b).last() == b.last());
        lemma_insert_all_concat(e, a, b.drop_last());
    }
}

proof fn lemma_insert_new_entry(e: Entries, k: Seq<char>, vs: Seq<Seq<char>>)
    requires
        vs.len() > 0,
        forall|i: int| 0 <= i < e.len() ==> e[i].0 != k,
    ensures
        insert_all(e, entry_pairs(k, vs)) == e.push((k, vs)),
    decreases vs.len(),
{
    let p = entry_pairs(k, vs);
    lemma_key_index(e, k);
    assert(p.last() == (k, vs.last()));
    if vs.len() == 1 {
        assert(insert_all(e, p.drop_last()) == e);
        assert(p.drop_last() =~= Seq::<(Seq<char>, Seq<char>)>::empty());
        assert(seq![vs[0]] =~= vs);
    } else {
        let vs0 = vs.drop_last();
        assert(p.drop_last() =~= entry_pairs(k, vs0));
        lemma_insert_new_entry(e, k, vs0);
        let e1 = e.push((k, vs0));
        lemma_key_index(e1, k);
        assert(e1[e.len() as int].0 == k);
        assert(key_index(e1, k) == e.len());
        assert(vs0.push(vs.last()) =~= vs);
        assert(e1[e.len() as int].1.push(vs.last()) == vs);
        assert(e1.update(e.len() as int, (k, vs)) =~= e.push((k, vs)));
    }
}

/// Flattening a mapping into (name, value) pairs and grouping them again
/// gives back the same mapping, with each name's values in the same order,
/// for mappings whose names are distinct and whose entries have values.
pub proof fn lemma_flatten_group_round_trip(e: Entries)
    requires
        names_unique(e),
        values_nonempty(e),
    ensures
        group(flatten(e)) == e,
    decreases e.len(),
{
    if e.len() > 0 {
        let d = e.drop_last();
        assert(names_unique(d));
        assert(values_nonempty(d));
        lemma_flatten_group_round_trip(d);
        lemma_insert_all_concat(Seq::empty(), flatten(d), entry_pairs(e.last().0, e.last().1));
        assert forall|i: int| 0 <= i < d.len() implies d[i].0 != e.last().0 by {
            assert(d[i] == e[i]);
        }
        lemma_insert_new_entry(d, e.last().0, e.last().1);
        assert(d.push(e.last()) =~= e);
    }
}

/// The texts of a sequence of strings.
pub open spec fn texts(v: Seq<String>) -> Seq<Seq<char>> {
    v.map_values(|s: String| s@)
}

/// Parallel name and value lists read as pairs; a longer list's surplus is
/// ignored.
pub open spec fn zip(names: Seq<String>, values: Seq<String>) -> Pairs {
    let n = if names.len() <= values.len() {
        names.len()
    } else {
        values.len()
    };
    Seq::new(n, |i: int| (names[i]@, values[i]@))
}

/// A host-side multi-valued header mapping. Names are kept as supplied
/// (case included) and are distinct; each name's values keep their
/// insertion order.
pub struct HeaderMap {
    names: Vec<String>,
    values: Vec<Vec<String>>,
}

impl View for HeaderMap {
    type V = Entries;

    closed spec fn view(&self) -> Entries {
        Seq::new(self.names@.len(), |i: int| (self.names@[i]@, texts(self.values@[i]@)))
    }
}

impl HeaderMap {
    /// The names and value lists are parallel and the names are distinct.
    pub closed spec fn wf(&self) -> bool {
        &&& self.names@.len() == self.values@.len()
        &&& names_unique(self@)
        &&& values_nonempty(self@)
    }

    /// An empty mapping.
    pub fn new() -> (r: HeaderMap)
        ensures
            r.wf(),
            r@ == Seq::<(Seq<char>, Seq<Seq<char>>)>::empty(),
    {
        let r = HeaderMap { names: Vec::new(), values: Vec::new() };
        assert(r@ =~= Seq::<(Seq<char>, Seq<Seq<char>>)>::empty());
        r
    }

    /// The number of distinct names.
    pub fn len(&self) -> (r: usize)
        requires
            self.wf(),
        ensures
            r == self@.len(),
    {
        self.names.len()
    }

    fn find(&self, name: &String) -> (r: Option<usize>)
        requires
            self.wf(),
        ensures
            match r {
                Some(j) => j == key_index(self@, name@),
                None => key_index(self@, name@) == -1,
            },
    {
        proof {
            lemma_key_index(self@, name@);
        }
        let mut i: usize = 0;
        while i < self.names.len()
            invariant
                self.wf(),
                i <= self@.len(),
                forall|m: int| 0 <= m < i ==> self@[m].0 != name@,
                -1 <= key_index(self@, name@) < self@.len(),
                key_index(self@, name@) == -1 <==> forall|m: int|
                    0 <= m < self@.len() ==> self@[m].0 != name@,
                key_index(self@, name@) >= 0 ==> self@[key_index(self@, name@)].0 == name@,
                forall|m: int| 0 <= m < key_index(self@, name@) ==> self@[m].0 != name@,
            decreases self@.len() - i,
        {
            if self.names[i] == *name {
                assert(self@[i as int].0 == name@);
                return Some(i);
            }
            assert(self@[i as int].0 != name@);
            i = i + 1;
        }
        None
    }

    /// Adds `value` under `name`: after that name's earlier values, or as a
    /// new entry after all others.
    pub fn insert(&mut self, name: String, value: String)
        requires
            old(self).wf(),
        ensures
            final(self).wf(),
            final(self)@ == insert_pair(old(self)@, name@, value@),
    {
        let ghost e = self@;
        proof {
            lemma_insert_keeps_unique(e, name@, value@);
            lemma_key_index(e, name@);
        }
        match self.find(&name) {
            Some(j) => {
                let ghost vs = self.values@[j as int]@;
                self.values[j].push(value);
                proof {
                    assert(texts(vs.push(value)) =~= texts(vs).push(value@));
                    assert(self@ =~= e.update(j as int, (name@, e[j as int].1.push(value@))));
                }
            },
            None => {
                let mut vs: Vec<String> = Vec::new();
                vs.push(value);
                self.names.push(name);
                self.values.push(vs);
                proof {
                    assert(texts(vs@) =~= seq![value@]);
                    assert(self@ =~= e.push((name@, seq![value@])));
                }
            },
        }
    }

    /// Groups parallel name and value lists, pair by pair, into a mapping.
    pub fn from_pairs(names: &Vec<String>, values: &Vec<String>) -> (r: HeaderMap)
        ensures
            r.wf(),
            r@ == group(zip(names@, values@)),
    {
        let n: usize = if names.len() <= values.len() {
            names.len()
        } else {
            values.len()
        };
        let ghost p = zip(names@, values@);
        let mut r = HeaderMap::new();
        let mut i: usize = 0;
        proof {
            assert(p.take(0) =~= Seq::<(Seq<char>, Seq<char>)>::empty());
        }
        while i < n
            invariant
                n == p.len(),
                n <= names@.len(),
                n <= values@.len(),
                p == zip(names@, values@),
                i <= n,
                r.wf(),
                r@ == group(p.take(i as int)),
            decreases n - i,
        {
            let k = names[i].clone();
            let v = values[i].clone();
            r.insert(k, v);
            proof {
                assert(p.take(i as int + 1).drop_last() =~= p.take(i as int));
                assert(p.take(i as int + 1).last() == p[i as int]);
            }
            i = i + 1;
        }
        proof {
            assert(p.take(n as int) =~= p);
        }
        r
    }

    /// Flattens the mapping into parallel name and value lists, one position
    /// for each (name, value), entry by entry.
    pub fn to_pairs(&self) -> (r: (Vec<String>, Vec<String>))
        requires
            self.wf(),
        ensures
            r.0@.len() == r.1@.len(),
            zip(r.0@, r.1@) == flatten(self@),
    {
        let ghost e = self@;
        let mut keys: Vec<String> = Vec::new();
        let mut vals: Vec<String> = Vec::new();
        let mut i: usize = 0;
        proof {
            assert(zip(keys@, vals@) =~= flatten(e.take(0)));
        }
        while i < self.names.len()
            invariant
                self.wf(),
                e == self@,
                i <= e.len(),
                keys@.len() == vals@.len(),
                zip(keys@, vals@) == flatten(e.take(i as int)),
            decreases e.len() - i,
        {
            let vs = &self.values[i];
            let mut j: usize = 0;
            let ghost base = flatten(e.take(i as int));
            proof {
                assert(entry_pairs(e[i as int].0, e[i as int].1.take(0)) =~= Seq::<
                    (Seq<char>, Seq<char>),
                >::empty());
                assert(base + entry_pairs(e[i as int].0, e[i as int].1.take(0)) =~= base);
            }
            while j < vs.len()
                invariant
                    self.wf(),
                    e == self@,
                    i < e.len(),
                    vs == self.values@[i as int],
                    j <= vs@.len(),
                    keys@.len() == vals@.len(),
                    base == flatten(e.take(i as int)),
                    zip(keys@, vals@) == base + entry_pairs(e[i as int].0, e[i as int].1.take(j as int)),
                decreases vs@.len() - j,
            {
                let ghost old_keys = keys@;
                let ghost old_vals = vals@;
                keys.push(self.names[i].clone());
                vals.push(vs[j].clone());
                proof {
                    assert(zip(keys@, vals@) =~= zip(old_keys, old_vals).push((e[i as int].0, vs@[j as int]@)));
                    assert(e[i as int].1[j as int] == vs@[j as int]@);
                    assert(entry_pairs(e[i as int].0, e[i as int].1.take(j as int + 1)) =~= entry_pairs(
                        e[i as int].0,
                        e[i as int].1.take(j as int),
                    ).push((e[i as int].0, vs@[j as int]@)));
                }
                j = j + 1;
            }
            proof {
                assert(e[i as int].1.take(j as int) =~= e[i as int].1);
                assert(e.take(i as int + 1).drop_last() =~= e.take(i as int));
                assert(e.take(i as int + 1).last() == e[i as int]);
            }
            i = i + 1;
        }
        proof {
            assert(e.take(e.len() as int) =~= e);
        }
        (keys, vals)
    }

    /// Flattening a header mapping into parallel lists and grouping the
    /// lists again gives back the same mapping, each name with its values in
    /// the same order.
    pub proof fn lemma_pairs_round_trip(&self)
        requires
            self.wf(),
        ensures
            group(flatten(self@)) == self@,
    {
        lemma_flatten_group_round_trip(self@);
    }

    /// The values under `name`, in insertion order, or `None` where no entry
    /// has that name.
    pub fn get(&self, name: &String) -> (r: Option<&Vec<String>>)
        requires
            self.wf(),
        ensures
            match r {
                Some(v) => key_index(self@, name@) >= 0 && texts(v@) == self@[key_index(
                    self@,
                    name@,
                )].1,
                None => key_index(self@, name@) == -1,
            },
    {
        proof {
            lemma_key_index(self@, name@);
        }
        match self.find(name) {
            Some(j) => Some(&self.values[j]),
            None => None,
        }
    }
}

} // verus!
