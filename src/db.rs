//! Interning tables: each distinct value gets the next id, starting at 1, in
//! the order in which values are first seen.
use vstd::prelude::*;

verus! {

/// A value that an interning table can hold: it can be compared with another
/// value by its view, and copied.
pub trait Internable: View + Sized {
    fn same(&self, other: &Self) -> (r: bool)
        ensures
            r == (self@ == other@);

    fn duplicate(&self) -> (r: Self)
        ensures
            r@ == self@;
}

impl Internable for String {
    fn same(&self, other: &Self) -> (r: bool) {
        *self == *other
    }

    fn duplicate(&self) -> (r: Self) {
        self.clone()
    }
}

/// No value occurs twice in `s`.
pub open spec fn no_dups<V>(s: Seq<V>) -> bool {
    forall|i: int, j: int| 0 <= i < j < s.len() ==> s[i] != s[j]
}

/// The table after `v` is looked up: unchanged when `v` is there, else `v` appended.
pub open spec fn interned<V>(s: Seq<V>, v: V) -> Seq<V> {
    if s.contains(v) {
        s
    } else {
        s.push(v)
    }
}

/// The table reached from an empty one by looking up the values of `vals` in turn.
pub open spec fn table_after<V>(vals: Seq<V>) -> Seq<V>
    decreases vals.len(),
{
    if vals.len() == 0 {
        Seq::empty()
    } else {
        interned(table_after(vals.drop_last()), vals.last())
    }
}

/// The 1-based id of `v` in a table `s` that holds it.
pub open spec fn id_in<V>(s: Seq<V>, v: V) -> int {
    (choose|i: int| 0 <= i < s.len() && s[i] == v) + 1
}

/// Ids returned when the values of `vals` are looked up in turn in a fresh table.
pub open spec fn ids_after<V>(vals: Seq<V>) -> Seq<int> {
    Seq::new(vals.len(), |k: int| id_in(table_after(vals.subrange(0, k + 1)), vals[k]))
}

/// A deduplicating table: the value with id `k` is at position `k - 1`.
pub struct DB<T> {
    data: Vec<T>,
}

impl<T: Internable> View for DB<T> {
    type V = Seq<T::V>;

    closed spec fn view(&self) -> Seq<T::V> {
        self.data@.map_values(|t: T| t@)
    }
}

impl<T: Internable> DB<T> {
    /// Ids are dense and each value is held once.
    pub open spec fn wf(&self) -> bool {
        no_dups(self@)
    }

    /// An empty table.
    pub fn new() -> (r: Self)
        ensures
            r.wf(),
            r@ == Seq::<T::V>::empty(),
    {
        let r = DB { data: Vec::new() };
        assert(r@ =~= Seq::<T::V>::empty());
        r
    }

    /// Number of distinct values held.
    pub fn len(&self) -> (r: usize)
        ensures
            r == self@.len(),
    {
        self.data.len()
    }

    /// The id of `key`: the one it already has, or else the next one, `len + 1`,
    /// under which it is added.
    pub fn get_id(&mut self, key: &T) -> (id: usize)
        requires
            old(self).wf(),
        ensures
            final(self).wf(),
            final(self)@ == interned(old(self)@, key@),
            1 <= id <= final(self)@.len(),
            final(self)@[id - 1] == key@,
            old(self)@.contains(key@) ==> id == id_in(old(self)@, key@),
            !old(self)@.contains(key@) ==> id == old(self)@.len() + 1,
    {
        let n = self.data.len();
        let mut i: usize = 0;
        while i < n
            invariant
                n == self.data@.len(),
                i <= n,
                self.wf(),
                forall|j: int| 0 <= j < i ==> self@[j] != key@,
            decreases n - i,
        {
            if self.data[i].same(key) {
                proof {
                    assert(self@[i as int] == key@);
                    lemma_id_in_unique(self@, key@, i as int + 1);
                }
                return i + 1;
            }
            i = i + 1;
        }
        assert(!self@.contains(key@));
        let ghost before = self@;
        self.data.push(key.duplicate());
        assert(self@ =~= before.push(key@));
        self.data.len()
    }

    /// The values with their ids, in id order.
    pub fn sorted_list(&self) -> (r: Vec<(T, usize)>)
        ensures
            r@.len() == self@.len(),
            forall|k: int| 0 <= k < r@.len() ==> (#[trigger] r@[k]).0@ == self@[k] && r@[k].1 == k + 1,
    {
        let mut r: Vec<(T, usize)> = Vec::new();
        let n = self.data.len();
        for i in 0..n
            invariant
                n == self@.len(),
                r@.len() == i,
                forall|k: int| 0 <= k < i ==> (#[trigger] r@[k]).0@ == self@[k] && r@[k].1 == k + 1,
        {
            r.push((self.data[i].duplicate(), i + 1));
        }
        r
    }

    /// The value with id `id`.
    pub fn entry(&self, id: usize) -> (r: &T)
        requires
            1 <= id <= self@.len(),
        ensures
            r@ == self@[id - 1],
    {
        &self.data[id - 1]
    }
}

pub proof fn lemma_id_in_unique<V>(s: Seq<V>, v: V, k: int)
    requires
        no_dups(s),
        1 <= k <= s.len(),
        s[k - 1] == v,
    ensures
        id_in(s, v) == k,
{
    assert(0 <= k - 1 < s.len() && s[k - 1] == v);
    let c = id_in(s, v);
    assert(1 <= c <= s.len() && s[c - 1] == v);
    if c != k {
        if c < k {
            assert(s[c - 1] != s[k - 1]);
        } else {
            assert(s[k - 1] != s[c - 1]);
        }
    }
}

/// Looking a value up keeps the table free of repeats, holds the value, and
/// only ever appends.
pub proof fn lemma_interned_step<V>(s: Seq<V>, v: V)
    requires
        no_dups(s),
    ensures
        no_dups(interned(s, v)),
        interned(s, v).contains(v),
        forall|x: V| interned(s, v).contains(x) <==> (s.contains(x) || x == v),
        s.len() <= interned(s, v).len(),
        forall|i: int| 0 <= i < s.len() ==> interned(s, v)[i] == s[i],
{
    let t = interned(s, v);
    if !s.contains(v) {
        assert forall|x: V| t.contains(x) <==> (s.contains(x) || x == v) by {
            if t.contains(x) {
                let i = choose|i: int| 0 <= i < t.len() && t[i] == x;
                if i < s.len() {
                    assert(s[i] == x);
                }
            }
            if s.contains(x) {
                let i = choose|i: int| 0 <= i < s.len() && s[i] == x;
                assert(t[i] == x);
            }
            if x == v {
                assert(t[s.len() as int] == x);
            }
        }
        assert forall|i: int, j: int| 0 <= i < j < t.len() implies t[i] != t[j] by {
            if j == s.len() {
                assert(t[i] == s[i]);
            }
        }
    }
}

proof fn lemma_table_after_prefix<V>(vals: Seq<V>, j: int)
    requires
        0 <= j <= vals.len(),
    ensures
        no_dups(table_after(vals)),
        table_after(vals.subrange(0, j)).len() <= table_after(vals).len(),
        forall|i: int|
            0 <= i < table_after(vals.subrange(0, j)).len() ==> #[trigger] table_after(
                vals.subrange(0, j),
            )[i] == table_after(vals)[i],
        forall|x: V| table_after(vals).contains(x) <==> vals.contains(x),
    decreases vals.len(),
{
    if vals.len() == 0 {
        assert(vals.subrange(0, j) =~= vals);
    } else {
        let p = vals.drop_last();
        if j == vals.len() {
            assert(vals.subrange(0, j) =~= vals);
            lemma_table_after_prefix(p, p.len() as int);
        } else {
            assert(vals.subrange(0, j) =~= p.subrange(0, j));
            lemma_table_after_prefix(p, j);
        }
        lemma_interned_step(table_after(p), vals.last());
        assert forall|x: V| table_after(vals).contains(x) <==> vals.contains(x) by {
            if vals.contains(x) {
                let i = choose|i: int| 0 <= i < vals.len() && vals[i] == x;
                if i < p.len() {
                    assert(p[i] == x);
                }
            }
            if p.contains(x) {
                let i = choose|i: int| 0 <= i < p.len() && p[i] == x;
                assert(vals[i] == x);
            }
        }
    }
}

/// Looking values up one after another in a fresh table is determined by the
/// values alone: the table holds each distinct value once, in the order first
/// seen, no id changes once given, and each lookup's id is the position of its
/// value, so that ids run densely from 1 to the table's size.
pub proof fn lemma_interning_deterministic<V>(vals: Seq<V>)
    ensures
        no_dups(table_after(vals)),
        forall|x: V| table_after(vals).contains(x) <==> vals.contains(x),
        forall|j: int, i: int|
            0 <= j <= vals.len() && 0 <= i < table_after(vals.subrange(0, j)).len() ==> #[trigger] table_after(
                vals.subrange(0, j),
            )[i] == table_after(vals)[i],
        ids_after(vals).len() == vals.len(),
        forall|k: int|
            0 <= k < vals.len() ==> 1 <= #[trigger] ids_after(vals)[k] <= table_after(vals).len()
                && table_after(vals)[ids_after(vals)[k] - 1] == vals[k],
{
    lemma_table_after_prefix(vals, vals.len() as int);
    assert forall|j: int, i: int|
        0 <= j <= vals.len() && 0 <= i < table_after(vals.subrange(0, j)).len() implies #[trigger] table_after(
            vals.subrange(0, j),
        )[i] == table_after(vals)[i] by {
        lemma_table_after_prefix(vals, j);
    }
    assert forall|k: int| 0 <= k < vals.len() implies 1 <= #[trigger] ids_after(vals)[k]
        <= table_after(vals).len() && table_after(vals)[ids_after(vals)[k] - 1] == vals[k] by {
        let sub = vals.subrange(0, k + 1);
        let t = table_after(sub);
        assert(sub.drop_last() =~= vals.subrange(0, k));
        assert(sub.last() == vals[k]);
        lemma_table_after_prefix(sub, k);
        lemma_interned_step(table_after(sub.drop_last()), vals[k]);
        assert(t.contains(vals[k]));
        let c = choose|i: int| 0 <= i < t.len() && t[i] == vals[k];
        assert(ids_after(vals)[k] == c + 1);
        lemma_table_after_prefix(vals, k + 1);
    }
}

} // verus!
