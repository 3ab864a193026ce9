//! A keyed table: at most one value per key.

use vstd::prelude::*;

use crate::text::same;

verus! {

/// What a table can be keyed by: a value whose model decides equality, and that can be
/// tested for it.
pub trait Key: DeepView + Sized {
    /// The borrowed form a key is looked up by.
    type Ref: ?Sized;

    /// The model that the borrowed form stands for.
    spec fn ref_model(r: &Self::Ref) -> <Self as DeepView>::V;

    /// Whether this key is the one that `r` stands for.
    fn is_key(&self, r: &Self::Ref) -> (b: bool)
        ensures
            b == (self.deep_view() == Self::ref_model(r)),
    ;

    /// The borrowed form of this key.
    fn as_key(&self) -> (r: &Self::Ref)
        ensures
            Self::ref_model(r) == self.deep_view(),
    ;
}

impl Key for String {
    type Ref = str;

    open spec fn ref_model(r: &str) -> Seq<char> {
        r@
    }

    fn is_key(&self, r: &str) -> (b: bool) {
        same(self.as_str(), r)
    }

    fn as_key(&self) -> (r: &str) {
        self.as_str()
    }
}

/// Keys beside their values.
#[derive(Debug)]
struct Columns<K, V> {
    keys: Vec<K>,
    values: Vec<V>,
}

/// Values under keys, in the order in which the keys first came.
#[derive(Debug)]
#[verifier::reject_recursive_types(K)]
#[verifier::reject_recursive_types(V)]
pub struct Table<K: Key, V> {
    columns: Columns<K, V>,
}

/// The models of a list of keys.
pub open spec fn models<K: DeepView>(keys: Seq<K>) -> Seq<<K as DeepView>::V> {
    Seq::new(keys.len(), |i: int| keys[i].deep_view())
}

/// The map that distinct keys beside their values stand for.
pub open spec fn map_of<K: DeepView, V>(keys: Seq<K>, values: Seq<V>) -> Map<<K as DeepView>::V, V> {
    Map::new(
        |k: <K as DeepView>::V| models(keys).contains(k),
        |k: <K as DeepView>::V| values[models(keys).index_of(k)],
    )
}

/// No key stands twice, and each stands beside one value.
pub open spec fn matched<K: DeepView, V>(keys: Seq<K>, values: Seq<V>) -> bool {
    &&& keys.len() == values.len()
    &&& models(keys).no_duplicates()
}

impl<K: Key, V> View for Table<K, V> {
    type V = Map<<K as DeepView>::V, V>;

    closed spec fn view(&self) -> Map<<K as DeepView>::V, V> {
        map_of(self.columns.keys@, self.columns.values@)
    }
}

/// The map with a model in place of each value.
pub open spec fn deep<K, V: DeepView>(m: Map<K, V>) -> Map<K, <V as DeepView>::V> {
    m.map_values(|v: V| v.deep_view())
}

/// Putting in and taking out are the same before and after taking models.
pub proof fn lemma_deep<K, V: DeepView>(m: Map<K, V>, k: K)
    ensures
        forall|v: V| deep(#[trigger] m.insert(k, v)) == deep(m).insert(k, v.deep_view()),
        deep(m.remove(k)) == deep(m).remove(k),
        deep(m).contains_key(k) == m.contains_key(k),
        m.contains_key(k) ==> deep(m)[k] == m[k].deep_view(),
{
    assert forall|v: V| deep(#[trigger] m.insert(k, v)) == deep(m).insert(k, v.deep_view()) by {
        assert(deep(m.insert(k, v)) =~= deep(m).insert(k, v.deep_view()));
    }
    assert(deep(m.remove(k)) =~= deep(m).remove(k));
}

/// Nothing holds no models.
pub proof fn lemma_deep_empty<K, V: DeepView>()
    ensures
        deep(Map::<K, V>::empty()) == Map::<K, <V as DeepView>::V>::empty(),
{
    assert(deep(Map::<K, V>::empty()) =~= Map::<K, <V as DeepView>::V>::empty());
}

/// The deep model of a table: models of the values under models of the keys.
impl<K: Key, V: DeepView> DeepView for Table<K, V> {
    type V = Map<<K as DeepView>::V, <V as DeepView>::V>;

    open spec fn deep_view(&self) -> Map<<K as DeepView>::V, <V as DeepView>::V> {
        deep(self@)
    }
}

impl<K: Key, V> Table<K, V> {
    #[verifier::type_invariant]
    spec fn distinct(self) -> bool {
        matched(self.columns.keys@, self.columns.values@)
    }

    /// An empty table.
    pub fn new() -> (r: Self)
        ensures
            r@ == Map::<<K as DeepView>::V, V>::empty(),
    {
        let r = Table { columns: Columns { keys: Vec::new(), values: Vec::new() } };
        assert(r@ =~= Map::<<K as DeepView>::V, V>::empty());
        r
    }

    /// Where a key stands.
    fn position(&self, key: &K::Ref) -> (r: Option<usize>)
        ensures
            match r {
                Some(i) => {
                    &&& i < self.columns.keys.len()
                    &&& self.columns.keys[i as int].deep_view() == K::ref_model(key)
                    &&& self@.contains_key(K::ref_model(key))
                    &&& self@[K::ref_model(key)] == self.columns.values[i as int]
                },
                None => {
                    &&& !self@.contains_key(K::ref_model(key))
                    &&& !models(self.columns.keys@).contains(K::ref_model(key))
                },
            },
    {
        proof {
            use_type_invariant(self);
        }
        let mut i: usize = 0;
        while i < self.columns.keys.len()
            invariant
                matched(self.columns.keys@, self.columns.values@),
                i <= self.columns.keys.len(),
                forall|j: int| 0 <= j < i ==> models(self.columns.keys@)[j] != K::ref_model(key),
            decreases self.columns.keys.len() - i,
        {
            if self.columns.keys[i].is_key(key) {
                proof {
                    lemma_at(self.columns.keys@, self.columns.values@, i as int);
                }
                return Some(i);
            }
            i += 1;
        }
        None
    }

    /// The value under a key.
    pub fn get(&self, key: &K::Ref) -> (r: Option<&V>)
        ensures
            r == (if self@.contains_key(K::ref_model(key)) {
                Some(&self@[K::ref_model(key)])
            } else {
                None
            }),
    {
        proof {
            use_type_invariant(self);
        }
        match self.position(key) {
            Some(i) => Some(&self.columns.values[i]),
            None => None,
        }
    }

    /// The value under a key, to be changed in place.
    pub fn get_mut(&mut self, key: &K::Ref) -> (r: Option<&mut V>)
        ensures
            match r {
                Some(v) => {
                    &&& old(self)@.contains_key(K::ref_model(key))
                    &&& *v == old(self)@[K::ref_model(key)]
                    &&& final(self)@ == old(self)@.insert(K::ref_model(key), *final(v))
                },
                None => !old(self)@.contains_key(K::ref_model(key)) && final(self)@ == old(self)@,
            },
            final(self).order() == old(self).order(),
    {
        proof {
            use_type_invariant(&*self);
        }
        match self.position(key) {
            Some(i) => {
                proof {
                    lemma_set_any(self.columns.keys@, self.columns.values@, i as int);
                }
                Some(&mut self.columns.values[i])
            },
            None => None,
        }
    }

    /// Whether a key has a value.
    pub fn contains_key(&self, key: &K::Ref) -> (r: bool)
        ensures
            r == self@.contains_key(K::ref_model(key)),
    {
        self.position(key).is_some()
    }

    /// Put a value under a key, in place of any that was there.
    pub fn insert(&mut self, key: K, value: V)
        ensures
            final(self)@ == old(self)@.insert(key.deep_view(), value),
            final(self).order() == (if old(self)@.contains_key(key.deep_view()) {
                old(self).order()
            } else {
                old(self).order().push(key.deep_view())
            }),
    {
        proof {
            use_type_invariant(&*self);
        }
        let found = self.position(key.as_key());
        let mut columns: Columns<K, V> = Columns { keys: Vec::new(), values: Vec::new() };
        std::mem::swap(&mut self.columns, &mut columns);
        match found {
            Some(i) => {
                proof {
                    lemma_set(columns.keys@, columns.values@, i as int, value);
                }
                columns.values.set(i, value);
            },
            None => {
                proof {
                    lemma_push(columns.keys@, columns.values@, key, value);
                }
                columns.keys.push(key);
                columns.values.push(value);
            },
        }
        std::mem::swap(&mut self.columns, &mut columns);
    }

    /// Take a key out, with its value.
    pub fn remove(&mut self, key: &K::Ref) -> (r: Option<V>)
        ensures
            final(self)@ == old(self)@.remove(K::ref_model(key)),
            r == (if old(self)@.contains_key(K::ref_model(key)) {
                Some(old(self)@[K::ref_model(key)])
            } else {
                None
            }),
    {
        proof {
            use_type_invariant(&*self);
        }
        match self.position(key) {
            Some(i) => {
                let mut columns: Columns<K, V> = Columns { keys: Vec::new(), values: Vec::new() };
                std::mem::swap(&mut self.columns, &mut columns);
                proof {
                    lemma_remove(columns.keys@, columns.values@, i as int);
                }
                columns.keys.remove(i);
                let value = columns.values.remove(i);
                std::mem::swap(&mut self.columns, &mut columns);
                Some(value)
            },
            None => {
                assert(self@.remove(K::ref_model(key)) =~= self@);
                None
            },
        }
    }

    /// How many keys there are.
    pub fn len(&self) -> (r: usize)
        ensures
            r == self@.len(),
            self@.dom().finite(),
            self.order().len() == r,
            self.order().no_duplicates(),
            self.order().to_set() == self@.dom(),
    {
        proof {
            use_type_invariant(self);
            lemma_len(self.columns.keys@, self.columns.values@);
        }
        self.columns.keys.len()
    }

    /// The key and the value at a place, in the order in which the keys first came.
    pub fn at(&self, i: usize) -> (r: (&K, &V))
        requires
            i < self.order().len(),
        ensures
            r.0.deep_view() == self.order()[i as int],
            *r.1 == self@[self.order()[i as int]],
    {
        proof {
            use_type_invariant(self);
            lemma_len(self.columns.keys@, self.columns.values@);
            lemma_at(self.columns.keys@, self.columns.values@, i as int);
        }
        (&self.columns.keys[i], &self.columns.values[i])
    }

    /// The value at a place, to be changed in place.
    pub fn at_mut(&mut self, i: usize) -> (r: &mut V)
        requires
            i < old(self).order().len(),
        ensures
            *r == old(self)@[old(self).order()[i as int]],
            final(self)@ == old(self)@.insert(old(self).order()[i as int], *final(r)),
            final(self).order() == old(self).order(),
    {
        proof {
            use_type_invariant(&*self);
            lemma_at(self.columns.keys@, self.columns.values@, i as int);
            lemma_set_any(self.columns.keys@, self.columns.values@, i as int);
        }
        &mut self.columns.values[i]
    }

    /// The keys, in the order in which they first came.
    pub closed spec fn order(&self) -> Seq<<K as DeepView>::V> {
        models(self.columns.keys@)
    }
}

proof fn lemma_at<K: DeepView, V>(keys: Seq<K>, values: Seq<V>, i: int)
    requires
        matched(keys, values),
        0 <= i < keys.len(),
    ensures
        map_of(keys, values).contains_key(keys[i].deep_view()),
        map_of(keys, values)[keys[i].deep_view()] == values[i],
{
    let d = models(keys);
    let k = d[i];
    assert(d.contains(k));
    let j = d.index_of(k);
    assert(d[j] == k && 0 <= j < d.len());
    assert(i == j);
}

/// Changing the value in one place changes the map at that key alone.
proof fn lemma_set<K: DeepView, V>(keys: Seq<K>, values: Seq<V>, i: int, v: V)
    requires
        matched(keys, values),
        0 <= i < keys.len(),
    ensures
        map_of(keys, values.update(i, v)) == map_of(keys, values).insert(keys[i].deep_view(), v),
{
    let d = models(keys);
    lemma_at(keys, values, i);
    lemma_at(keys, values.update(i, v), i);
    assert forall|k: <K as DeepView>::V| d.contains(k) && k != d[i] implies #[trigger] map_of(
        keys,
        values.update(i, v),
    )[k] == map_of(keys, values)[k] by {
        let j = d.index_of(k);
        assert(d[j] == k);
    }
    assert(map_of(keys, values.update(i, v)) =~= map_of(keys, values).insert(d[i], v));
}

proof fn lemma_set_any<K: DeepView, V>(keys: Seq<K>, values: Seq<V>, i: int)
    requires
        matched(keys, values),
        0 <= i < keys.len(),
    ensures
        forall|v: V|
            map_of(keys, #[trigger] values.update(i, v)) == map_of(keys, values).insert(
                keys[i].deep_view(),
                v,
            ),
{
    assert forall|v: V|
        map_of(keys, #[trigger] values.update(i, v)) == map_of(keys, values).insert(
            keys[i].deep_view(),
            v,
        ) by {
        lemma_set(keys, values, i, v);
    }
}

proof fn lemma_push<K: DeepView, V>(keys: Seq<K>, values: Seq<V>, k: K, v: V)
    requires
        matched(keys, values),
        !models(keys).contains(k.deep_view()),
    ensures
        matched(keys.push(k), values.push(v)),
        map_of(keys.push(k), values.push(v)) == map_of(keys, values).insert(k.deep_view(), v),
{
    let d = models(keys);
    let d2 = models(keys.push(k));
    assert(d2 =~= d.push(k.deep_view()));
    lemma_at(keys.push(k), values.push(v), keys.len() as int);
    let m = map_of(keys, values);
    let m2 = map_of(keys.push(k), values.push(v));
    assert forall|x: <K as DeepView>::V| d.contains(x) implies d2.contains(x) && m2[x] == m[x] by {
        let j = d.index_of(x);
        assert(d[j] == x);
        assert(d2[j] == x);
        lemma_at(keys.push(k), values.push(v), j);
        lemma_at(keys, values, j);
    }
    assert forall|x: <K as DeepView>::V| d2.contains(x) implies d.contains(x) || x == k.deep_view() by {
        let j = d2.index_of(x);
        assert(d2[j] == x);
        if j < keys.len() {
            assert(d[j] == x);
        }
    }
    assert(m2 =~= m.insert(k.deep_view(), v));
}

proof fn lemma_remove<K: DeepView, V>(keys: Seq<K>, values: Seq<V>, i: int)
    requires
        matched(keys, values),
        0 <= i < keys.len(),
    ensures
        matched(keys.remove(i), values.remove(i)),
        map_of(keys.remove(i), values.remove(i)) == map_of(keys, values).remove(keys[i].deep_view()),
{
    let d = models(keys);
    let d2 = models(keys.remove(i));
    assert(d2 =~= d.remove(i));
    let m = map_of(keys, values);
    let m2 = map_of(keys.remove(i), values.remove(i));
    assert forall|x: <K as DeepView>::V| d.contains(x) && x != d[i] implies d2.contains(x) && m2[x] == m[x] by {
        let j = d.index_of(x);
        assert(d[j] == x);
        let n = if j < i { j } else { j - 1 };
        assert(d2[n] == x);
        lemma_at(keys.remove(i), values.remove(i), n);
        lemma_at(keys, values, j);
    }
    assert forall|x: <K as DeepView>::V| d2.contains(x) implies d.contains(x) && x != d[i] by {
        let n = d2.index_of(x);
        assert(d2[n] == x);
        let j = if n < i { n } else { n + 1 };
        assert(d[j] == x);
    }
    assert(m2 =~= m.remove(d[i]));
}

proof fn lemma_len<K: DeepView, V>(keys: Seq<K>, values: Seq<V>)
    requires
        matched(keys, values),
    ensures
        map_of(keys, values).len() == keys.len(),
        map_of(keys, values).dom().finite(),
        map_of(keys, values).dom() == models(keys).to_set(),
{
    models(keys).unique_seq_to_set();
    assert(map_of(keys, values).dom() =~= models(keys).to_set());
}

} // verus!
