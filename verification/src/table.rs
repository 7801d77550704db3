//! A map from text to values, kept as a vector of rows in the order of their keys.

use vstd::prelude::*;

use crate::text;

verus! {

/// The rows of a table: keys with their values.
pub open spec fn has_key<V>(rows: Seq<(Seq<char>, V)>, k: Seq<char>) -> bool {
    exists|i: int| 0 <= i < rows.len() && #[trigger] rows[i].0 == k
}

/// The place of a key among the rows that hold it.
pub open spec fn row_of<V>(rows: Seq<(Seq<char>, V)>, k: Seq<char>) -> int {
    choose|i: int| 0 <= i < rows.len() && #[trigger] rows[i].0 == k
}

/// Rows in the order of their keys; no key comes twice.
pub open spec fn in_key_order<V>(rows: Seq<(Seq<char>, V)>) -> bool {
    forall|i: int, j: int|
        0 <= i < j < rows.len() ==> text::text_lt(#[trigger] rows[i].0, #[trigger] rows[j].0)
}

/// The map that the rows stand for.
pub open spec fn map_of_rows<V>(rows: Seq<(Seq<char>, V)>) -> Map<Seq<char>, V> {
    Map::new(|k: Seq<char>| has_key(rows, k), |k: Seq<char>| rows[row_of(rows, k)].1)
}

/// In rows that are in order, a key is in one place.
pub proof fn row_is_unique<V>(rows: Seq<(Seq<char>, V)>, i: int)
    requires
        in_key_order(rows),
        0 <= i < rows.len(),
    ensures
        has_key(rows, rows[i].0),
        row_of(rows, rows[i].0) == i,
        map_of_rows(rows).dom().contains(rows[i].0),
        map_of_rows(rows)[rows[i].0] == rows[i].1,
{
    let k = rows[i].0;
    let j = row_of(rows, k);
    assert(rows[i].0 == k);
    assert(0 <= j < rows.len() && rows[j].0 == k);
    if i < j {
        assert(text::text_lt(rows[i].0, rows[j].0));
        text::text_lt_irreflexive(k);
    } else if j < i {
        assert(text::text_lt(rows[j].0, rows[i].0));
        text::text_lt_irreflexive(k);
    }
}

/// The rows of a map in key order are determined by the map.
pub proof fn rows_are_determined<V>(a: Seq<(Seq<char>, V)>, b: Seq<(Seq<char>, V)>)
    requires
        in_key_order(a),
        in_key_order(b),
        map_of_rows(a) == map_of_rows(b),
    ensures
        a == b,
    decreases a.len(),
{
    assert forall|k: Seq<char>| has_key(a, k) == has_key(b, k) by {
        assert(map_of_rows(a).dom().contains(k) == has_key(a, k));
        assert(map_of_rows(b).dom().contains(k) == has_key(b, k));
    }
    if a.len() == 0 {
        if b.len() > 0 {
            assert(has_key(b, b[0].0));
            assert(has_key(a, b[0].0));
        }
        assert(a =~= b);
    } else {
        let la = a.len() - 1;
        assert(has_key(a, a[la].0));
        assert(has_key(b, a[la].0));
        let lb = b.len() - 1;
        assert(has_key(b, b[lb].0));
        assert(has_key(a, b[lb].0));
        let i = row_of(b, a[la].0);
        let j = row_of(a, b[lb].0);
        if i < lb {
            assert(text::text_lt(b[i].0, b[lb].0));
            if j < la {
                assert(text::text_lt(a[j].0, a[la].0));
                text::text_lt_transitive(a[la].0, b[lb].0, a[la].0);
            }
            text::text_lt_irreflexive(a[la].0);
        }
        assert(a[la].0 == b[lb].0);
        row_is_unique(a, la);
        row_is_unique(b, lb);
        assert(a[la] == b[lb]);
        let ra = a.drop_last();
        let rb = b.drop_last();
        assert forall|k: Seq<char>| has_key(ra, k) == has_key(rb, k) && (has_key(ra, k) ==> ra[row_of(ra, k)].1
            == rb[row_of(rb, k)].1) by {
            if has_key(ra, k) {
                rows_without_last(a, b, k);
            }
            if has_key(rb, k) {
                rows_without_last(b, a, k);
            }
        }
        assert(map_of_rows(ra) =~= map_of_rows(rb));
        rows_are_determined(ra, rb);
        assert(a =~= ra.push(a[la]));
        assert(b =~= rb.push(b[lb]));
    }
}

/// The texts are those of the set, in their order, each once.
pub open spec fn is_list_of(names: Seq<Seq<char>>, set: Set<Seq<char>>) -> bool {
    &&& forall|i: int, j: int| 0 <= i < j < names.len() ==> text::text_lt(#[trigger] names[i], #[trigger] names[j])
    &&& forall|k: Seq<char>| #[trigger] names.contains(k) <==> set.contains(k)
}

/// The texts of a set in their order.
pub open spec fn listed(set: Set<Seq<char>>) -> Seq<Seq<char>> {
    choose|names: Seq<Seq<char>>| is_list_of(names, set)
}

/// A set has one such list.
pub proof fn listed_is(names: Seq<Seq<char>>, set: Set<Seq<char>>)
    requires
        is_list_of(names, set),
    ensures
        listed(set) == names,
{
    let other = listed(set);
    assert(is_list_of(other, set));
    let a = Seq::new(names.len(), |i: int| (names[i], ()));
    let b = Seq::new(other.len(), |i: int| (other[i], ()));
    assert forall|k: Seq<char>| has_key(a, k) == has_key(b, k) by {
        assert(names.contains(k) == other.contains(k));
        if names.contains(k) {
            let i = choose|i: int| 0 <= i < names.len() && names[i] == k;
            assert(a[i].0 == k);
        }
        if other.contains(k) {
            let i = choose|i: int| 0 <= i < other.len() && other[i] == k;
            assert(b[i].0 == k);
        }
        if has_key(a, k) {
            assert(names[row_of(a, k)] == k);
        }
        if has_key(b, k) {
            assert(other[row_of(b, k)] == k);
        }
    }
    assert(map_of_rows(a) =~= map_of_rows(b));
    rows_are_determined(a, b);
    assert(names =~= other) by {
        assert(a.len() == names.len() && b.len() == other.len());
        assert forall|i: int| 0 <= i < names.len() implies names[i] == other[i] by {
            assert(a[i] == b[i]);
        }
    }
}

/// The keys of a table, row by row, are its keys in their order.
pub proof fn keys_are_listed<V>(rows: Seq<(Seq<char>, V)>)
    requires
        in_key_order(rows),
    ensures
        listed(map_of_rows(rows).dom()) == Seq::new(rows.len(), |i: int| rows[i].0),
{
    let names = Seq::new(rows.len(), |i: int| rows[i].0);
    assert forall|i: int, j: int| 0 <= i < j < names.len() implies text::text_lt(
        #[trigger] names[i],
        #[trigger] names[j],
    ) by {
        assert(text::text_lt(rows[i].0, rows[j].0));
    }
    assert forall|k: Seq<char>| #[trigger] names.contains(k) <==> map_of_rows(rows).dom().contains(k) by {
        if names.contains(k) {
            let i = choose|i: int| 0 <= i < names.len() && names[i] == k;
            row_is_unique(rows, i);
        }
        if map_of_rows(rows).dom().contains(k) {
            assert(has_key(rows, k));
            let at = row_of(rows, k);
            assert(names[at] == k);
        }
    }
    listed_is(names, map_of_rows(rows).dom());
}

/// A table has as many keys as rows.
pub proof fn keys_are_counted<V>(rows: Seq<(Seq<char>, V)>)
    requires
        in_key_order(rows),
    ensures
        map_of_rows(rows).dom().len() == rows.len(),
{
    let names = Seq::new(rows.len(), |i: int| rows[i].0);
    assert forall|i: int, j: int| 0 <= i < names.len() && 0 <= j < names.len() && i != j implies names[i]
        != names[j] by {
        row_is_unique(rows, i);
        row_is_unique(rows, j);
    }
    names.unique_seq_to_set();
    assert forall|k: Seq<char>| names.to_set().contains(k) <==> map_of_rows(rows).dom().contains(k) by {
        if names.contains(k) {
            let i = choose|i: int| 0 <= i < names.len() && names[i] == k;
            row_is_unique(rows, i);
        }
        if map_of_rows(rows).dom().contains(k) {
            assert(has_key(rows, k));
            assert(names[row_of(rows, k)] == k);
        }
    }
    assert(names.to_set() =~= map_of_rows(rows).dom());
}

/// The map of one row more.
pub proof fn rows_one_more<V>(rows: Seq<(Seq<char>, V)>, i: int)
    requires
        in_key_order(rows),
        0 <= i < rows.len(),
    ensures
        map_of_rows(rows.take(i + 1)) == map_of_rows(rows.take(i)).insert(rows[i].0, rows[i].1),
        !map_of_rows(rows.take(i)).dom().contains(rows[i].0),
{
    let before = rows.take(i);
    let after = rows.take(i + 1);
    assert(after =~= before.insert(i, rows[i]));
    if has_key(before, rows[i].0) {
        let j = row_of(before, rows[i].0);
        assert(text::text_lt(rows[j].0, rows[i].0));
        text::text_lt_irreflexive(rows[i].0);
    }
    inserted_row(before, after, i, -1, rows[i].0, rows[i].1);
}

proof fn rows_without_last<V>(a: Seq<(Seq<char>, V)>, b: Seq<(Seq<char>, V)>, k: Seq<char>)
    requires
        in_key_order(a),
        in_key_order(b),
        map_of_rows(a) == map_of_rows(b),
        a.len() > 0,
        b.len() > 0,
        a.last() == b.last(),
        has_key(a.drop_last(), k),
    ensures
        has_key(b.drop_last(), k),
        a.drop_last()[row_of(a.drop_last(), k)].1 == b.drop_last()[row_of(b.drop_last(), k)].1,
{
    let ra = a.drop_last();
    let rb = b.drop_last();
    let i = row_of(ra, k);
    assert(a[i].0 == k);
    row_is_unique(a, i);
    assert(map_of_rows(b).dom().contains(k));
    let j = row_of(b, k);
    row_is_unique(b, j);
    if j == b.len() - 1 {
        assert(text::text_lt(a[i].0, a.last().0));
        text::text_lt_irreflexive(k);
    }
    assert(rb[j].0 == k);
    row_is_unique(rb, j);
}

/// A map from text to values of type `V`.
#[derive(Debug, PartialEq)]
pub struct Table<V> {
    pub(crate) entries: Vec<(String, V)>,
}

impl<V> Table<V> {
    /// The rows, in the order of their keys.
    pub closed spec fn rows(self) -> Seq<(Seq<char>, V)> {
        Seq::new(self.entries@.len(), |i: int| (self.entries@[i].0@, self.entries@[i].1))
    }

    #[verifier::type_invariant]
    pub closed spec fn ordered(self) -> bool {
        in_key_order(self.rows())
    }
}

pub(crate) proof fn rows_are_entries<V>(t: Table<V>)
    ensures
        t.rows().len() == t.entries@.len(),
        forall|i: int|
            0 <= i < t.entries@.len() ==> #[trigger] t.rows()[i] == (t.entries@[i].0@, t.entries@[i].1),
{
}

impl<V> View for Table<V> {
    type V = Map<Seq<char>, V>;

    open spec fn view(&self) -> Map<Seq<char>, V> {
        map_of_rows(self.rows())
    }
}

impl<V> Table<V> {
    /// The empty table.
    pub fn new() -> (r: Self)
        ensures
            r.rows() == Seq::<(Seq<char>, V)>::empty(),
            r@ == Map::<Seq<char>, V>::empty(),
    {
        let r = Table { entries: Vec::new() };
        assert(r.rows() =~= Seq::<(Seq<char>, V)>::empty());
        assert(r@ =~= Map::<Seq<char>, V>::empty());
        r
    }

    /// The number of rows. Rows are in the order of their keys.
    pub fn len(&self) -> (n: usize)
        ensures
            n == self.rows().len(),
            in_key_order(self.rows()),
    {
        proof {
            use_type_invariant(self);
        }
        self.entries.len()
    }

    /// The key in row `i`.
    pub fn key_at(&self, i: usize) -> (k: &String)
        requires
            i < self.rows().len(),
        ensures
            k@ == self.rows()[i as int].0,
    {
        &self.entries[i].0
    }

    /// The value in row `i`.
    pub fn value_at(&self, i: usize) -> (v: &V)
        requires
            i < self.rows().len(),
        ensures
            *v == self.rows()[i as int].1,
            self@.dom().contains(self.rows()[i as int].0),
            self@[self.rows()[i as int].0] == *v,
    {
        proof {
            use_type_invariant(self);
            row_is_unique(self.rows(), i as int);
        }
        &self.entries[i].1
    }

    /// The first row whose key is not before `k`.
    fn place(&self, k: &str) -> (i: usize)
        ensures
            i <= self.rows().len(),
            forall|j: int| 0 <= j < i ==> text::text_lt(#[trigger] self.rows()[j].0, k@),
            i < self.rows().len() ==> !text::text_lt(self.rows()[i as int].0, k@),
    {
        let mut i: usize = 0;
        while i < self.entries.len() && text::text_less(self.entries[i].0.as_str(), k)
            invariant
                i <= self.entries@.len(),
                forall|j: int| 0 <= j < i ==> text::text_lt(#[trigger] self.rows()[j].0, k@),
            decreases self.entries@.len() - i,
        {
            assert(self.rows()[i as int].0 == self.entries@[i as int].0@);
            i = i + 1;
        }
        i
    }

    /// The row that holds the key, where one does.
    fn find(&self, k: &str) -> (r: Option<usize>)
        ensures
            match r {
                Some(i) => i < self.rows().len() && self.rows()[i as int].0 == k@,
                None => !has_key(self.rows(), k@),
            },
    {
        let i = self.place(k);
        if i < self.entries.len() && text::same_text(self.entries[i].0.as_str(), k) {
            Some(i)
        } else {
            proof {
                use_type_invariant(self);
                let rows = self.rows();
                if has_key(rows, k@) {
                    let j = row_of(rows, k@);
                    text::text_lt_irreflexive(k@);
                    assert(j >= i);
                    text::text_lt_total(rows[i as int].0, k@);
                    if j > i {
                        assert(text::text_lt(rows[i as int].0, rows[j].0));
                    }
                }
            }
            None
        }
    }

    /// The value of the key.
    pub fn get(&self, k: &str) -> (r: Option<&V>)
        ensures
            match r {
                Some(v) => self@.dom().contains(k@) && self@[k@] == *v,
                None => !self@.dom().contains(k@),
            },
    {
        match self.find(k) {
            Some(i) => Some(self.value_at(i)),
            None => None,
        }
    }

    /// Whether the table has the key.
    pub fn contains_key(&self, k: &str) -> (r: bool)
        ensures
            r == self@.dom().contains(k@),
    {
        self.get(k).is_some()
    }

    /// Sets the value of the key, and keeps every other row.
    pub fn insert(&mut self, k: String, v: V)
        ensures
            final(self)@ == old(self)@.insert(k@, v),
    {
        proof {
            use_type_invariant(&*self);
        }
        let ghost before = self.rows();
        let found = self.find(k.as_str());
        let i = self.place(k.as_str());
        let mut entries: Vec<(String, V)> = Vec::new();
        core::mem::swap(&mut entries, &mut self.entries);
        let ghost key = k@;
        match found {
            Some(at) => {
                let _old = entries.remove(at);
                entries.insert(at, (k, v));
                proof {
                    let after = Table { entries }.rows();
                    assert(after =~= before.update(at as int, (key, v)));
                    assert forall|a: int, b: int| 0 <= a < b < after.len() implies text::text_lt(
                        #[trigger] after[a].0,
                        #[trigger] after[b].0,
                    ) by {
                        assert(before[a].0 == after[a].0);
                        assert(before[b].0 == after[b].0);
                    }
                    inserted_row(before, after, at as int, at as int, key, v);
                }
            },
            None => {
                entries.insert(i, (k, v));
                proof {
                    let after = Table { entries }.rows();
                    assert(after =~= before.insert(i as int, (key, v)));
                    assert forall|a: int, b: int| 0 <= a < b < after.len() implies text::text_lt(
                        #[trigger] after[a].0,
                        #[trigger] after[b].0,
                    ) by {
                        if a < i && b == i {
                            assert(text::text_lt(before[a].0, key));
                        } else if a == i {
                            text::text_lt_total(before[i as int].0, key);
                            assert(has_key(before, before[i as int].0));
                            assert(text::text_lt(key, before[i as int].0));
                            if b > i + 1 {
                                assert(text::text_lt(before[i as int].0, before[b - 1].0));
                                text::text_lt_transitive(key, before[i as int].0, before[b - 1].0);
                            }
                        } else {
                            let pa = if a < i { a } else { a - 1 };
                            let pb = if b < i { b } else { b - 1 };
                            assert(text::text_lt(before[pa].0, before[pb].0));
                        }
                    }
                    inserted_row(before, after, i as int, -1, key, v);
                }
            },
        }
        self.entries = entries;
    }

    /// The table with the value of the key set.
    pub fn with(self, k: String, v: V) -> (r: Self)
        ensures
            r@ == self@.insert(k@, v),
    {
        let mut t = self;
        t.insert(k, v);
        t
    }

    /// Takes the key out of the table, and keeps every other row.
    pub fn remove(&mut self, k: &str) -> (r: Option<V>)
        ensures
            final(self)@ == old(self)@.remove(k@),
            match r {
                Some(v) => old(self)@.dom().contains(k@) && old(self)@[k@] == v,
                None => !old(self)@.dom().contains(k@),
            },
    {
        proof {
            use_type_invariant(&*self);
        }
        let ghost before = self.rows();
        match self.find(k) {
            Some(at) => {
                let mut entries: Vec<(String, V)> = Vec::new();
                core::mem::swap(&mut entries, &mut self.entries);
                let row = entries.remove(at);
                proof {
                    let after = Table { entries }.rows();
                    assert(after =~= before.remove(at as int));
                    row_is_unique(before, at as int);
                    assert forall|a: int, b: int| 0 <= a < b < after.len() implies text::text_lt(
                        #[trigger] after[a].0,
                        #[trigger] after[b].0,
                    ) by {
                        let pa = if a < at { a } else { a + 1 };
                        let pb = if b < at { b } else { b + 1 };
                        assert(text::text_lt(before[pa].0, before[pb].0));
                    }
                    removed_row(before, after, at as int);
                }
                self.entries = entries;
                Some(row.1)
            },
            None => {
                assert(self@.remove(k@) =~= self@);
                None
            },
        }
    }
}

proof fn inserted_row<V>(
    before: Seq<(Seq<char>, V)>,
    after: Seq<(Seq<char>, V)>,
    at: int,
    replaced: int,
    k: Seq<char>,
    v: V,
)
    requires
        in_key_order(before),
        in_key_order(after),
        0 <= at < after.len(),
        (replaced == at && at < before.len() && before[at].0 == k && after == before.update(at, (k, v))) || (replaced == -1
            && !has_key(before, k) && at <= before.len() && after == before.insert(at, (k, v))),
    ensures
        map_of_rows(after) == map_of_rows(before).insert(k, v),
{
    let ma = map_of_rows(after);
    let mb = map_of_rows(before).insert(k, v);
    row_is_unique(after, at);
    assert(after[at] == (k, v));
    assert forall|x: Seq<char>| has_key(after, x) == (has_key(before, x) || x == k) && (has_key(after, x) && x != k
        ==> after[row_of(after, x)].1 == before[row_of(before, x)].1) by {
        if has_key(after, x) && x != k {
            let j = row_of(after, x);
            row_is_unique(after, j);
            let p = if replaced == -1 && j > at { j - 1 } else { j };
            assert(before[p] == after[j]);
            row_is_unique(before, p);
        }
        if has_key(before, x) && x != k {
            let p = row_of(before, x);
            let j = if replaced == -1 && p >= at { p + 1 } else { p };
            assert(before[p] == after[j]);
            row_is_unique(after, j);
        }
    }
    assert(ma =~= mb);
}

proof fn removed_row<V>(before: Seq<(Seq<char>, V)>, after: Seq<(Seq<char>, V)>, at: int)
    requires
        in_key_order(before),
        in_key_order(after),
        0 <= at < before.len(),
        after == before.remove(at),
    ensures
        map_of_rows(after) == map_of_rows(before).remove(before[at].0),
{
    let k = before[at].0;
    row_is_unique(before, at);
    assert forall|x: Seq<char>| has_key(after, x) == (has_key(before, x) && x != k) && (has_key(after, x)
        ==> after[row_of(after, x)].1 == before[row_of(before, x)].1) by {
        if has_key(after, x) {
            let j = row_of(after, x);
            row_is_unique(after, j);
            let p = if j >= at { j + 1 } else { j };
            assert(before[p] == after[j]);
            row_is_unique(before, p);
        }
        if has_key(before, x) && x != k {
            let p = row_of(before, x);
            row_is_unique(before, p);
            let j = if p > at { p - 1 } else { p };
            assert(before[p] == after[j]);
            row_is_unique(after, j);
        }
    }
    assert(map_of_rows(after) =~= map_of_rows(before).remove(k));
}

/// A table holds what its rows say: a key is in it where some row has it, and has the value of that
/// row.
pub proof fn tables_hold_their_rows<V>(rows: Seq<(Seq<char>, V)>, k: Seq<char>, i: int, j: int)
    requires
        forall|a: int, b: int| 0 <= a < b < rows.len() ==> text::text_lt(#[trigger] rows[a].0, #[trigger] rows[b].0),
        0 <= i < j < rows.len(),
    ensures
        map_of_rows(rows).dom().contains(k) <==> exists|a: int| 0 <= a < rows.len() && #[trigger] rows[a].0 == k,
        map_of_rows(rows)[rows[i].0] == rows[i].1,
        listed(map_of_rows(rows).dom()).len() == rows.len(),
        listed(map_of_rows(rows).dom())[i] == rows[i].0,
        text::text_lt(listed(map_of_rows(rows).dom())[i], listed(map_of_rows(rows).dom())[j]),
{
    row_is_unique(rows, i);
    keys_are_listed(rows);
}

/// What is put in a table is found there, what is taken out is not, and every other key keeps its
/// value.
pub proof fn tables_find_what_was_put<V>(
    before: Table<V>,
    put: Table<V>,
    taken: Table<V>,
    k: String,
    v: V,
    key: &str,
    r: Option<V>,
    other: &str,
    a: Option<&V>,
    b: Option<&V>,
    c: bool,
    fresh: Table<V>,
)
    requires
        exists|t: &mut Table<V>|
            #![trigger call_ensures(Table::<V>::insert, (t, k, v), ())]
            *t == before && *final(t) == put && call_ensures(Table::<V>::insert, (t, k, v), ()),
        exists|t: &mut Table<V>|
            #![trigger call_ensures(Table::<V>::remove, (t, key), r)]
            *t == before && *final(t) == taken && call_ensures(Table::<V>::remove, (t, key), r),
        call_ensures(Table::<V>::get, (&put, other), a),
        call_ensures(Table::<V>::get, (&taken, other), b),
        call_ensures(Table::<V>::contains_key, (&before, other), c),
        call_ensures(Table::<V>::new, (), fresh),
    ensures
        other@ == k@ ==> a == Some(&v),
        other@ != k@ ==> (a is Some <==> before@.dom().contains(other@)),
        other@ != k@ && a is Some ==> *a->0 == before@[other@],
        other@ == key@ ==> b is None,
        other@ != key@ ==> (b is Some <==> before@.dom().contains(other@)),
        other@ != key@ && b is Some ==> *b->0 == before@[other@],
        r is Some <==> before@.dom().contains(key@),
        r is Some ==> r->0 == before@[key@],
        c <==> before@.dom().contains(other@),
        fresh@.dom() == Set::<Seq<char>>::empty(),
{
}

} // verus!
