//! A YAML value tree held as plain data: scalars, sequences and insertion-ordered
//! mappings whose keys are unique.  Numbers are kept in their textual form, so the
//! tree never holds a float.
use vstd::prelude::*;

verus! {

/// A YAML value.
pub enum Yaml {
    Null,
    Bool(bool),
    /// A number in its canonical textual form (for example `9000` or `1.5`).
    Number(String),
    Str(String),
    Sequence(Vec<Yaml>),
    Mapping(Mapping),
    Tagged(String, Box<Yaml>),
}

/// An insertion-ordered YAML mapping.  No two entries have equal keys; keys are
/// compared structurally.
pub struct Mapping {
    entries: Vec<(Yaml, Yaml)>,
}

/// The mathematical value of a [`Yaml`].
pub enum YamlV {
    Null,
    Bool(bool),
    Number(Seq<char>),
    Str(Seq<char>),
    Sequence(Seq<YamlV>),
    Mapping(Seq<(YamlV, YamlV)>),
    Tagged(Seq<char>, Box<YamlV>),
}

/// The entries of a mapping, as mathematical values.
pub type Entries = Seq<(YamlV, YamlV)>;

pub open spec fn yaml_view(y: Yaml) -> YamlV
    decreases y,
{
    match y {
        Yaml::Null => YamlV::Null,
        Yaml::Bool(b) => YamlV::Bool(b),
        Yaml::Number(s) => YamlV::Number(s@),
        Yaml::Str(s) => YamlV::Str(s@),
        Yaml::Sequence(v) => YamlV::Sequence(
            Seq::new(v@.len(), |i: int| if 0 <= i < v@.len() { yaml_view(v@[i]) } else { YamlV::Null }),
        ),
        Yaml::Mapping(m) => YamlV::Mapping(mapping_view(m)),
        Yaml::Tagged(t, b) => YamlV::Tagged(t@, Box::new(yaml_view(*b))),
    }
}

pub closed spec fn mapping_view(m: Mapping) -> Entries
    decreases m,
{
    Seq::new(
        m.entries@.len(),
        |i: int|
            if 0 <= i < m.entries@.len() {
                (yaml_view(m.entries@[i].0), yaml_view(m.entries@[i].1))
            } else {
                (YamlV::Null, YamlV::Null)
            },
    )
}

impl View for Yaml {
    type V = YamlV;

    open spec fn view(&self) -> YamlV {
        yaml_view(*self)
    }
}

impl View for Mapping {
    type V = Entries;

    open spec fn view(&self) -> Entries {
        mapping_view(*self)
    }
}

/// The views of a list of values.
pub open spec fn views(s: Seq<Yaml>) -> Seq<YamlV> {
    s.map_values(|y: Yaml| y@)
}

pub proof fn lemma_sequence_view(v: Vec<Yaml>)
    ensures
        yaml_view(Yaml::Sequence(v)) == YamlV::Sequence(views(v@)),
{
    let a = match yaml_view(Yaml::Sequence(v)) {
        YamlV::Sequence(a) => a,
        _ => Seq::empty(),
    };
    assert(a.len() == v@.len());
    assert forall|i: int| 0 <= i < a.len() implies a[i] == #[trigger] views(v@)[i] by {
    }
    assert(a =~= views(v@));
}

/// No two entries share a key.
pub open spec fn keys_unique(m: Entries) -> bool {
    forall|i: int, j: int| 0 <= i < j < m.len() ==> #[trigger] m[i].0 != #[trigger] m[j].0
}

/// Every mapping in the value, at any depth, has unique keys.
pub open spec fn wf(v: YamlV) -> bool
    decreases v,
{
    match v {
        YamlV::Sequence(s) => forall|i: int| 0 <= i < s.len() ==> wf(#[trigger] s[i]),
        YamlV::Mapping(m) => keys_unique(m) && forall|i: int|
            #![trigger m[i]]
            0 <= i < m.len() ==> wf(m[i].0) && wf(m[i].1),
        YamlV::Tagged(_, b) => wf(*b),
        _ => true,
    }
}

/// The entries form a well-formed mapping.
pub open spec fn mwf(m: Entries) -> bool {
    wf(YamlV::Mapping(m))
}

pub open spec fn has_key(m: Entries, k: YamlV) -> bool {
    exists|i: int| 0 <= i < m.len() && #[trigger] m[i].0 == k
}

/// The position of key `k`, or -1.
pub open spec fn key_index(m: Entries, k: YamlV) -> int {
    if has_key(m, k) {
        choose|i: int| 0 <= i < m.len() && #[trigger] m[i].0 == k
    } else {
        -1
    }
}

/// The value stored under `k`.
pub open spec fn lookup(m: Entries, k: YamlV) -> Option<YamlV> {
    if has_key(m, k) {
        Some(m[key_index(m, k)].1)
    } else {
        None
    }
}

/// Insertion as an insertion-ordered map does it: an existing key keeps its
/// position and takes the new value; a new key goes last.
pub open spec fn map_insert(m: Entries, k: YamlV, v: YamlV) -> Entries {
    if has_key(m, k) {
        m.update(key_index(m, k), (m[key_index(m, k)].0, v))
    } else {
        m.push((k, v))
    }
}

/// Removal of position `i` by moving the last entry into its place.
pub open spec fn swap_remove_at(m: Entries, i: int) -> Entries {
    m.update(i, m.last()).drop_last()
}

/// Removal of key `k` as an insertion-ordered map's swap removal does it.
pub open spec fn map_remove(m: Entries, k: YamlV) -> Entries {
    if has_key(m, k) {
        swap_remove_at(m, key_index(m, k))
    } else {
        m
    }
}

pub open spec fn yaml_str(s: Seq<char>) -> YamlV {
    YamlV::Str(s)
}

pub proof fn lemma_key_index(m: Entries, k: YamlV, i: int)
    requires
        keys_unique(m),
        0 <= i < m.len(),
        m[i].0 == k,
    ensures
        has_key(m, k),
        key_index(m, k) == i,
        lookup(m, k) == Some(m[i].1),
{
    let j = choose|j: int| 0 <= j < m.len() && #[trigger] m[j].0 == k;
    if j < i {
        assert(m[j].0 != m[i].0);
    } else if i < j {
        assert(m[i].0 != m[j].0);
    }
}

/// Inserting into a well-formed mapping keeps it well-formed.
pub proof fn lemma_insert_wf(m: Entries, k: YamlV, v: YamlV)
    requires
        mwf(m),
        wf(k),
        wf(v),
    ensures
        mwf(map_insert(m, k, v)),
        has_key(map_insert(m, k, v), k),
        lookup(map_insert(m, k, v), k) == Some(v),
        forall|k2: YamlV| k2 != k ==> #[trigger] lookup(map_insert(m, k, v), k2) == lookup(m, k2),
        forall|k2: YamlV| #[trigger] has_key(map_insert(m, k, v), k2) <==> has_key(m, k2) || k2 == k,
{
    let r = map_insert(m, k, v);
    if has_key(m, k) {
        let idx = key_index(m, k);
        assert(r.len() == m.len());
        assert forall|i: int, j: int| 0 <= i < j < r.len() implies #[trigger] r[i].0 != #[trigger] r[j].0 by {
            assert(r[i].0 == m[i].0);
            assert(r[j].0 == m[j].0);
        }
        assert forall|i: int| #![trigger r[i]] 0 <= i < r.len() implies wf(r[i].0) && wf(r[i].1) by {
            assert(wf(m[i].0) && wf(m[i].1));
        }
        lemma_key_index(r, k, idx);
        assert forall|k2: YamlV| k2 != k implies #[trigger] lookup(r, k2) == lookup(m, k2) by {
            if has_key(m, k2) {
                let j = key_index(m, k2);
                assert(r[j].0 == k2);
                lemma_key_index(r, k2, j);
            } else {
                if has_key(r, k2) {
                    let j = choose|j: int| 0 <= j < r.len() && #[trigger] r[j].0 == k2;
                    assert(m[j].0 == k2);
                }
            }
        }
        assert forall|k2: YamlV| #[trigger] has_key(r, k2) <==> has_key(m, k2) || k2 == k by {
            if has_key(m, k2) {
                let j = key_index(m, k2);
                assert(r[j].0 == k2);
            }
            if has_key(r, k2) {
                let j = choose|j: int| 0 <= j < r.len() && #[trigger] r[j].0 == k2;
                assert(m[j].0 == k2);
            }
        }
    } else {
        assert forall|i: int, j: int| 0 <= i < j < r.len() implies #[trigger] r[i].0 != #[trigger] r[j].0 by {
            if j == m.len() {
                assert(r[i].0 == m[i].0);
            }
        }
        assert forall|i: int| #![trigger r[i]] 0 <= i < r.len() implies wf(r[i].0) && wf(r[i].1) by {
            if i < m.len() {
                assert(wf(m[i].0) && wf(m[i].1));
            }
        }
        lemma_key_index(r, k, m.len() as int);
        assert forall|k2: YamlV| k2 != k implies #[trigger] lookup(r, k2) == lookup(m, k2) by {
            if has_key(m, k2) {
                let j = key_index(m, k2);
                assert(r[j].0 == k2);
                lemma_key_index(r, k2, j);
            } else {
                if has_key(r, k2) {
                    let j = choose|j: int| 0 <= j < r.len() && #[trigger] r[j].0 == k2;
                    assert(m[j].0 == k2);
                }
            }
        }
        assert forall|k2: YamlV| #[trigger] has_key(r, k2) <==> has_key(m, k2) || k2 == k by {
            if has_key(m, k2) {
                let j = key_index(m, k2);
                assert(r[j].0 == k2);
            }
            if has_key(r, k2) && k2 != k {
                let j = choose|j: int| 0 <= j < r.len() && #[trigger] r[j].0 == k2;
                assert(m[j].0 == k2);
            }
        }
    }
}

/// Removing from a well-formed mapping keeps it well-formed.
pub proof fn lemma_remove_wf(m: Entries, k: YamlV)
    requires
        mwf(m),
    ensures
        mwf(map_remove(m, k)),
        !has_key(map_remove(m, k), k),
        forall|k2: YamlV| k2 != k ==> #[trigger] lookup(map_remove(m, k), k2) == lookup(m, k2),
        forall|k2: YamlV| #[trigger] has_key(map_remove(m, k), k2) <==> has_key(m, k2) && k2 != k,
{
    let r = map_remove(m, k);
    if has_key(m, k) {
        let idx = key_index(m, k);
        let last = m.len() - 1;
        // r[i] is m[i] for i != idx, and m[last] at idx (when idx != last)
        assert(r.len() == last);
        assert forall|i: int| 0 <= i < r.len() implies #[trigger] r[i] == (if i == idx { m[last] } else { m[i] }) by {
        }
        assert forall|i: int, j: int| 0 <= i < j < r.len() implies #[trigger] r[i].0 != #[trigger] r[j].0 by {
            let a = if i == idx { last } else { i };
            let b = if j == idx { last } else { j };
            assert(r[i] == m[a]);
            assert(r[j] == m[b]);
            assert(a != b);
            if a < b {
                assert(m[a].0 != m[b].0);
            } else {
                assert(m[b].0 != m[a].0);
            }
        }
        assert forall|i: int| #![trigger r[i]] 0 <= i < r.len() implies wf(r[i].0) && wf(r[i].1) by {
            let a = if i == idx { last } else { i };
            assert(r[i] == m[a]);
            assert(wf(m[a].0) && wf(m[a].1));
        }
        assert forall|k2: YamlV| #[trigger] has_key(r, k2) <==> has_key(m, k2) && k2 != k by {
            if has_key(r, k2) {
                let j = choose|j: int| 0 <= j < r.len() && #[trigger] r[j].0 == k2;
                let a = if j == idx { last } else { j };
                assert(r[j] == m[a]);
                assert(m[a].0 == k2);
                lemma_key_index(m, k2, a);
            }
            if has_key(m, k2) && k2 != k {
                let a = key_index(m, k2);
                assert(a != idx);
                if a == last {
                    assert(r[idx] == m[last]);
                    assert(r[idx].0 == k2);
                } else {
                    assert(r[a] == m[a]);
                    assert(r[a].0 == k2);
                }
            }
        }
        assert forall|k2: YamlV| k2 != k implies #[trigger] lookup(r, k2) == lookup(m, k2) by {
            if has_key(m, k2) {
                let a = key_index(m, k2);
                assert(a != idx);
                if a == last {
                    assert(r[idx] == m[last]);
                    lemma_key_index(r, k2, idx);
                } else {
                    assert(r[a] == m[a]);
                    lemma_key_index(r, k2, a);
                }
            }
        }
    }
}

/// A value found in a well-formed mapping is well-formed.
pub proof fn lemma_lookup_wf(m: Entries, k: YamlV)
    requires
        mwf(m),
        has_key(m, k),
    ensures
        lookup(m, k) is Some,
        wf(lookup(m, k)->0),
{
    let i = key_index(m, k);
    assert(wf(m[i].0) && wf(m[i].1));
}

/// Dropping the last entry of a well-formed mapping.
pub proof fn lemma_drop_last(m: Entries)
    requires
        mwf(m),
        m.len() > 0,
    ensures
        mwf(m.drop_last()),
        !has_key(m.drop_last(), m.last().0),
        has_key(m, m.last().0),
        lookup(m, m.last().0) == Some(m.last().1),
        wf(m.last().0),
        wf(m.last().1),
        forall|k: YamlV| k != m.last().0 ==> #[trigger] lookup(m.drop_last(), k) == lookup(m, k),
        forall|k: YamlV| #[trigger] has_key(m, k) <==> has_key(m.drop_last(), k) || k == m.last().0,
{
    let d = m.drop_last();
    let n = m.len() - 1;
    assert forall|i: int, j: int| 0 <= i < j < d.len() implies #[trigger] d[i].0 != #[trigger] d[j].0 by {
        assert(m[i].0 != m[j].0);
    }
    assert forall|i: int| #![trigger d[i]] 0 <= i < d.len() implies wf(d[i].0) && wf(d[i].1) by {
        assert(wf(m[i].0) && wf(m[i].1));
    }
    assert(wf(m[n].0) && wf(m[n].1));
    if has_key(d, m.last().0) {
        let j = choose|j: int| 0 <= j < d.len() && #[trigger] d[j].0 == m.last().0;
        assert(m[j].0 != m[n].0);
    }
    lemma_key_index(m, m.last().0, n);
    assert forall|k: YamlV| k != m.last().0 implies #[trigger] lookup(d, k) == lookup(m, k) by {
        if has_key(m, k) {
            let i = key_index(m, k);
            assert(i != n);
            assert(d[i] == m[i]);
            lemma_key_index(d, k, i);
        } else if has_key(d, k) {
            let j = choose|j: int| 0 <= j < d.len() && #[trigger] d[j].0 == k;
            assert(m[j].0 == k);
        }
    }
    assert forall|k: YamlV| #[trigger] has_key(m, k) <==> has_key(d, k) || k == m.last().0 by {
        if has_key(m, k) && k != m.last().0 {
            let i = key_index(m, k);
            assert(d[i].0 == k);
        }
        if has_key(d, k) {
            let j = choose|j: int| 0 <= j < d.len() && #[trigger] d[j].0 == k;
            assert(m[j].0 == k);
        }
        if k == m.last().0 {
            assert(m[n].0 == k);
        }
    }
}

/// An item of a well-formed sequence is well-formed.
pub proof fn lemma_wf_item(s: Seq<YamlV>, i: int)
    requires
        wf(YamlV::Sequence(s)),
        0 <= i < s.len(),
    ensures
        wf(s[i]),
{
    let v = YamlV::Sequence(s);
    match v {
        YamlV::Sequence(t) => {
            assert(t[i] == s[i]);
        },
        _ => {},
    }
}

/// Storing the value a key already holds changes nothing.
pub proof fn lemma_insert_same(m: Entries, k: YamlV, v: YamlV)
    requires
        lookup(m, k) == Some(v),
    ensures
        map_insert(m, k, v) == m,
{
    let i = key_index(m, k);
    assert(m[i].0 == k);
    assert(map_insert(m, k, v) =~= m);
}

impl Yaml {
    /// A string value.
    pub fn string(s: &str) -> (r: Yaml)
        ensures
            r@ == YamlV::Str(s@),
    {
        Yaml::Str(s.to_owned())
    }

    /// The mapping inside a mapping value.
    pub fn as_mapping(&self) -> (r: Option<&Mapping>)
        ensures
            r matches Some(m) ==> self@ == YamlV::Mapping(m@),
            r is None <==> !(self@ is Mapping),
    {
        match self {
            Yaml::Mapping(m) => Some(m),
            _ => None,
        }
    }

    /// The items of a sequence value.
    pub fn as_sequence(&self) -> (r: Option<&Vec<Yaml>>)
        ensures
            r matches Some(s) ==> self@ == YamlV::Sequence(views(s@)),
            r is None <==> !(self@ is Sequence),
    {
        match self {
            Yaml::Sequence(s) => {
                proof { lemma_sequence_view(*s); }
                Some(s)
            },
            _ => None,
        }
    }

    /// The text of a string value.
    pub fn as_str(&self) -> (r: Option<&String>)
        ensures
            r matches Some(s) ==> self@ == YamlV::Str(s@),
            r is None <==> !(self@ is Str),
    {
        match self {
            Yaml::Str(s) => Some(s),
            _ => None,
        }
    }

    /// The value of a boolean value.
    pub fn as_bool(&self) -> (r: Option<bool>)
        ensures
            r matches Some(b) ==> self@ == YamlV::Bool(b),
            r is None <==> !(self@ is Bool),
    {
        match self {
            Yaml::Bool(b) => Some(*b),
            _ => None,
        }
    }

    /// A copy of the value.
    pub fn deep_clone(&self) -> (r: Yaml)
        ensures
            r@ == self@,
        decreases self,
    {
        match self {
            Yaml::Null => Yaml::Null,
            Yaml::Bool(b) => Yaml::Bool(*b),
            Yaml::Number(s) => Yaml::Number(s.clone()),
            Yaml::Str(s) => Yaml::Str(s.clone()),
            Yaml::Sequence(v) => {
                let c = clone_items(v);
                proof {
                    lemma_sequence_view(*v);
                    lemma_sequence_view(c);
                }
                Yaml::Sequence(c)
            },
            Yaml::Mapping(m) => Yaml::Mapping(m.deep_clone()),
            Yaml::Tagged(t, b) => {
                let inner = (&**b).deep_clone();
                Yaml::Tagged(t.clone(), Box::new(inner))
            },
        }
    }

    /// Structural equality of two values.
    pub fn equals(&self, other: &Yaml) -> (r: bool)
        ensures
            r == (self@ == other@),
        decreases self,
    {
        let r = match self {
            Yaml::Null => match other {
                Yaml::Null => true,
                _ => false,
            },
            Yaml::Bool(a) => match other {
                Yaml::Bool(b) => *a == *b,
                _ => false,
            },
            Yaml::Number(a) => match other {
                Yaml::Number(b) => a.eq(b),
                _ => false,
            },
            Yaml::Str(a) => match other {
                Yaml::Str(b) => a.eq(b),
                _ => false,
            },
            Yaml::Sequence(a) => match other {
                Yaml::Sequence(b) => {
                    proof {
                        lemma_sequence_view(*a);
                        lemma_sequence_view(*b);
                    }
                    items_equal(a, b)
                },
                _ => false,
            },
            Yaml::Mapping(a) => match other {
                Yaml::Mapping(b) => a.equals(b),
                _ => false,
            },
            Yaml::Tagged(t, a) => match other {
                Yaml::Tagged(u, b) => {
                    if t.eq(u) {
                        (&**a).equals(&**b)
                    } else {
                        false
                    }
                },
                _ => false,
            },
        };
        r
    }
}

/// A copy of a list of values.
pub fn clone_items(v: &Vec<Yaml>) -> (r: Vec<Yaml>)
    ensures
        views(r@) == views(v@),
    decreases v,
{
    let mut out: Vec<Yaml> = Vec::new();
    let mut i: usize = 0;
    while i < v.len()
        invariant
            i <= v.len(),
            out@.len() == i,
            forall|j: int| 0 <= j < i ==> #[trigger] out@[j]@ == v@[j]@,
        decreases v.len() - i,
    {
        assert(decreases_to!(v => v@[i as int]));
        let c = v[i].deep_clone();
        out.push(c);
        i = i + 1;
    }
    assert(views(out@) =~= views(v@));
    out
}

/// Structural equality of two lists of values.
pub fn items_equal(a: &Vec<Yaml>, b: &Vec<Yaml>) -> (r: bool)
    ensures
        r == (views(a@) == views(b@)),
    decreases a,
{
    if a.len() != b.len() {
        assert(views(a@).len() != views(b@).len());
        return false;
    }
    let mut i: usize = 0;
    while i < a.len()
        invariant
            i <= a.len(),
            a.len() == b.len(),
            forall|j: int| 0 <= j < i ==> #[trigger] a@[j]@ == b@[j]@,
        decreases a.len() - i,
    {
        assert(decreases_to!(a => a@[i as int]));
        if !a[i].equals(&b[i]) {
            assert(views(a@)[i as int] != views(b@)[i as int]);
            return false;
        }
        i = i + 1;
    }
    assert(views(a@) =~= views(b@));
    true
}

impl Mapping {
    /// An empty mapping.
    pub fn new() -> (r: Mapping)
        ensures
            r@ == Seq::<(YamlV, YamlV)>::empty(),
    {
        let r = Mapping { entries: Vec::new() };
        assert(r@ =~= Seq::<(YamlV, YamlV)>::empty());
        r
    }

    proof fn lemma_view_len(&self)
        ensures
            self@.len() == self.entries@.len(),
    {
    }

    proof fn lemma_view_entry(&self, i: int)
        requires
            0 <= i < self.entries@.len(),
        ensures
            self@.len() == self.entries@.len(),
            self@[i] == (self.entries@[i].0@, self.entries@[i].1@),
    {
    }

    /// The number of entries.
    pub fn len(&self) -> (r: usize)
        ensures
            r == self@.len(),
    {
        self.entries.len()
    }

    /// The key and value at position `i`.
    pub fn entry(&self, i: usize) -> (r: (&Yaml, &Yaml))
        requires
            i < self@.len(),
        ensures
            r.0@ == self@[i as int].0,
            r.1@ == self@[i as int].1,
    {
        proof { self.lemma_view_entry(i as int); }
        let e = &self.entries[i];
        (&e.0, &e.1)
    }

    /// The position of `key`, if present.
    pub fn find(&self, key: &Yaml) -> (r: Option<usize>)
        requires
            mwf(self@),
        ensures
            r is Some <==> has_key(self@, key@),
            r matches Some(i) ==> i as int == key_index(self@, key@) && i < self@.len(),
    {
        let mut i: usize = 0;
        while i < self.entries.len()
            invariant
                i <= self.entries@.len(),
                self@.len() == self.entries@.len(),
                mwf(self@),
                forall|j: int| 0 <= j < i ==> #[trigger] self@[j].0 != key@,
            decreases self.entries.len() - i,
        {
            proof { self.lemma_view_entry(i as int); }
            if self.entries[i].0.equals(key) {
                proof { lemma_key_index(self@, key@, i as int); }
                return Some(i);
            }
            i = i + 1;
        }
        None
    }

    /// The value stored under `key`.
    pub fn get(&self, key: &Yaml) -> (r: Option<&Yaml>)
        requires
            mwf(self@),
        ensures
            r matches Some(v) ==> lookup(self@, key@) == Some(v@),
            r is None <==> lookup(self@, key@) is None,
    {
        match self.find(key) {
            Some(i) => {
                proof { self.lemma_view_entry(i as int); }
                Some(&self.entries[i].1)
            },
            None => None,
        }
    }

    /// Whether `key` is present.
    pub fn contains_key(&self, key: &Yaml) -> (r: bool)
        requires
            mwf(self@),
        ensures
            r == has_key(self@, key@),
    {
        self.find(key).is_some()
    }

    /// Stores `value` under `key`; an existing key keeps its position.
    pub fn insert(&mut self, key: Yaml, value: Yaml)
        requires
            mwf(old(self)@),
            wf(key@),
            wf(value@),
        ensures
            final(self)@ == map_insert(old(self)@, key@, value@),
            mwf(final(self)@),
    {
        proof { lemma_insert_wf(self@, key@, value@); }
        let ghost old_view = self@;
        match self.find(&key) {
            Some(i) => {
                let ghost k0 = self.entries@[i as int].0;
                proof { self.lemma_view_entry(i as int); }
                let old_entry = self.entries.remove(i);
                self.entries.insert(i, (old_entry.0, value));
                assert(self@ =~= map_insert(old_view, key@, value@)) by {
                    assert forall|j: int| 0 <= j < self@.len() implies #[trigger] self@[j] == map_insert(old_view, key@, value@)[j] by {
                        self.lemma_view_entry(j);
                    }
                }
            },
            None => {
                self.entries.push((key, value));
                assert(self@ =~= map_insert(old_view, key@, value@)) by {
                    assert forall|j: int| 0 <= j < self@.len() implies #[trigger] self@[j] == map_insert(old_view, key@, value@)[j] by {
                        self.lemma_view_entry(j);
                    }
                }
            },
        }
    }

    /// Removes `key` by moving the last entry into its place, and returns its value.
    pub fn remove(&mut self, key: &Yaml) -> (r: Option<Yaml>)
        requires
            mwf(old(self)@),
        ensures
            final(self)@ == map_remove(old(self)@, key@),
            mwf(final(self)@),
            r matches Some(v) ==> lookup(old(self)@, key@) == Some(v@),
            r is None <==> lookup(old(self)@, key@) is None,
    {
        proof { lemma_remove_wf(self@, key@); }
        let ghost old_view = self@;
        match self.find(key) {
            Some(i) => {
                proof { self.lemma_view_entry(i as int); }
                let e = self.entries.swap_remove(i);
                assert(self@ =~= map_remove(old_view, key@)) by {
                    assert forall|j: int| 0 <= j < self@.len() implies #[trigger] self@[j] == map_remove(old_view, key@)[j] by {
                        self.lemma_view_entry(j);
                    }
                }
                Some(e.1)
            },
            None => {
                assert(self@ =~= map_remove(old_view, key@));
                None
            },
        }
    }

    /// A copy of the mapping.
    pub fn deep_clone(&self) -> (r: Mapping)
        ensures
            r@ == self@,
        decreases self,
    {
        let mut out: Vec<(Yaml, Yaml)> = Vec::new();
        let mut i: usize = 0;
        while i < self.entries.len()
            invariant
                i <= self.entries@.len(),
                out@.len() == i,
                forall|j: int| 0 <= j < i ==> #[trigger] out@[j].0@ == self.entries@[j].0@ && out@[j].1@ == self.entries@[j].1@,
            decreases self.entries.len() - i,
        {
            assert(decreases_to!(self => self.entries@[i as int].0));
            assert(decreases_to!(self => self.entries@[i as int].1));
            let k = self.entries[i].0.deep_clone();
            let v = self.entries[i].1.deep_clone();
            out.push((k, v));
            i = i + 1;
        }
        let r = Mapping { entries: out };
        proof {
            r.lemma_view_len();
            self.lemma_view_len();
            assert forall|j: int| 0 <= j < r@.len() implies #[trigger] r@[j] == self@[j] by {
                r.lemma_view_entry(j);
                self.lemma_view_entry(j);
            }
        }
        assert(r@ =~= self@);
        r
    }

    /// Structural equality, entry by entry in order.
    pub fn equals(&self, other: &Mapping) -> (r: bool)
        ensures
            r == (self@ == other@),
        decreases self,
    {
        proof {
            self.lemma_view_len();
            other.lemma_view_len();
        }
        if self.entries.len() != other.entries.len() {
            return false;
        }
        let mut i: usize = 0;
        while i < self.entries.len()
            invariant
                i <= self.entries@.len(),
                self.entries@.len() == other.entries@.len(),
                self@.len() == self.entries@.len(),
                other@.len() == other.entries@.len(),
                forall|j: int| 0 <= j < i ==> #[trigger] self@[j] == other@[j],
            decreases self.entries.len() - i,
        {
            assert(decreases_to!(self => self.entries@[i as int].0));
            assert(decreases_to!(self => self.entries@[i as int].1));
            proof {
                self.lemma_view_entry(i as int);
                other.lemma_view_entry(i as int);
            }
            if !self.entries[i].0.equals(&other.entries[i].0) {
                return false;
            }
            if !self.entries[i].1.equals(&other.entries[i].1) {
                return false;
            }
            i = i + 1;
        }
        assert(self@ =~= other@);
        true
    }
}

} // verus!
