//! A table of rows found by an integer key, in which no key occurs twice.

use vstd::prelude::*;

verus! {

/// One row: the key and what is stored under it.
struct Row<V> {
    pub key: u64,
    pub value: V,
}

/// Rows in the order in which they were inserted. No two rows share a key.
pub struct Table<V> {
    rows: Vec<Row<V>>,
}

/// No key occurs in two rows.
spec fn keys_distinct<V>(rows: Seq<Row<V>>) -> bool {
    forall|i: int, j: int|
        0 <= i < rows.len() && 0 <= j < rows.len() && i != j ==> rows[i].key != rows[j].key
}

/// Some row has this key.
spec fn has_key<V>(rows: Seq<Row<V>>, key: u64) -> bool {
    exists|i: int| 0 <= i < rows.len() && rows[i].key == key
}

/// Where the row with this key stands, if there is one.
spec fn position<V>(rows: Seq<Row<V>>, key: u64) -> int {
    choose|i: int| 0 <= i < rows.len() && rows[i].key == key
}

/// The map from each key to the view of its row's value.
spec fn rows_as_map<V: View>(rows: Seq<Row<V>>) -> Map<u64, V::V> {
    Map::new(|key: u64| has_key(rows, key), |key: u64| rows[position(rows, key)].value@)
}

/// The keys of the rows, in row order.
spec fn keys_of<V>(rows: Seq<Row<V>>) -> Seq<u64> {
    rows.map_values(|row: Row<V>| row.key)
}

/// In rows with distinct keys, a row is found by its key where it stands.
proof fn lemma_position_of_row<V>(rows: Seq<Row<V>>, i: int)
    requires
        keys_distinct(rows),
        0 <= i < rows.len(),
    ensures
        has_key(rows, rows[i].key),
        position(rows, rows[i].key) == i,
{
    let found = position(rows, rows[i].key);
    assert(rows[found].key == rows[i].key);
}

/// Rows with distinct keys hold as many keys as there are rows.
proof fn lemma_key_count<V: View>(rows: Seq<Row<V>>)
    requires
        keys_distinct(rows),
    ensures
        rows_as_map(rows).dom().finite(),
        rows_as_map(rows).dom().len() == rows.len(),
{
    let keys = keys_of(rows);
    assert forall|key: u64| keys.contains(key) <==> has_key(rows, key) by {
        if keys.contains(key) {
            let i = keys.index_of(key);
            assert(rows[i].key == key);
        }
        if has_key(rows, key) {
            assert(keys[position(rows, key)] == key);
        }
    }
    assert(rows_as_map(rows).dom() =~= keys.to_set());
    keys.unique_seq_to_set();
    vstd::seq_lib::seq_to_set_is_finite(keys);
}

/// Appending a row under a key that no row has adds that key to the map.
proof fn lemma_push_row<V: View>(rows: Seq<Row<V>>, row: Row<V>)
    requires
        keys_distinct(rows),
        !has_key(rows, row.key),
    ensures
        keys_distinct(rows.push(row)),
        rows_as_map(rows.push(row)) == rows_as_map(rows).insert(row.key, row.value@),
{
    let grown = rows.push(row);
    assert forall|key: u64| has_key(grown, key) <==> (key == row.key || has_key(rows, key)) by {
        if has_key(grown, key) {
            let i = position(grown, key);
            if i < rows.len() {
                assert(rows[i].key == key);
            }
        }
        if has_key(rows, key) {
            assert(grown[position(rows, key)].key == key);
        }
        if key == row.key {
            assert(grown[rows.len() as int].key == key);
        }
    }
    assert forall|key: u64| has_key(grown, key) implies #[trigger] rows_as_map(grown)[key]
        == rows_as_map(rows).insert(row.key, row.value@)[key] by {
        if key == row.key {
            lemma_position_of_row(grown, rows.len() as int);
        } else {
            lemma_position_of_row(grown, position(rows, key));
        }
    }
}

/// Taking a row out takes its key out of the map and leaves the rest.
proof fn lemma_remove_row<V: View>(rows: Seq<Row<V>>, i: int)
    requires
        keys_distinct(rows),
        0 <= i < rows.len(),
    ensures
        keys_distinct(rows.remove(i)),
        rows_as_map(rows.remove(i)) == rows_as_map(rows).remove(rows[i].key),
{
    let rest = rows.remove(i);
    let gone = rows[i].key;
    // Where the row at `a` of `rest` stood in `rows`.
    let origin = |a: int| if a < i { a } else { a + 1 };
    assert forall|a: int| 0 <= a < rest.len() implies rest[a] == rows[origin(a)] by {}
    assert forall|key: u64| has_key(rest, key) <==> (key != gone && has_key(rows, key)) by {
        if has_key(rest, key) {
            assert(rows[origin(position(rest, key))].key == key);
        }
        if key != gone && has_key(rows, key) {
            let b = position(rows, key);
            assert(rest[if b < i { b } else { b - 1 }] == rows[b]);
        }
    }
    assert forall|key: u64| has_key(rest, key) implies #[trigger] rows_as_map(rest)[key]
        == rows_as_map(rows)[key] by {
        lemma_position_of_row(rows, origin(position(rest, key)));
    }
}

impl<V: View> View for Table<V> {
    type V = Map<u64, V::V>;

    closed spec fn view(&self) -> Map<u64, V::V> {
        rows_as_map(self.rows@)
    }
}

impl<V> Table<V> {
    #[verifier::type_invariant]
    spec fn keys_are_distinct(self) -> bool {
        keys_distinct(self.rows@)
    }
}

impl<V: View> Table<V> {
    /// A table without rows.
    pub fn new() -> (table: Self)
        ensures
            table@ == Map::<u64, V::V>::empty(),
    {
        Table { rows: Vec::new() }
    }

    /// The number of rows, which is the number of keys.
    pub fn len(&self) -> (n: usize)
        ensures
            self@.dom().finite(),
            n == self@.dom().len(),
    {
        proof {
            use_type_invariant(self);
            lemma_key_count(self.rows@);
        }
        self.rows.len()
    }

    /// Where the row with this key stands.
    fn find(&self, key: u64) -> (found: Option<usize>)
        ensures
            match found {
                Some(i) => i < self.rows@.len() && self.rows@[i as int].key == key,
                None => !has_key(self.rows@, key),
            },
    {
        let mut i: usize = 0;
        while i < self.rows.len()
            invariant
                i <= self.rows@.len(),
                forall|j: int| 0 <= j < i ==> self.rows@[j].key != key,
            decreases self.rows@.len() - i,
        {
            if self.rows[i].key == key {
                return Some(i);
            }
            i += 1;
        }
        None
    }

    /// Whether some row has this key.
    pub fn contains(&self, key: u64) -> (present: bool)
        ensures
            present == self@.contains_key(key),
    {
        self.find(key).is_some()
    }

    /// The value stored under this key.
    pub fn get(&self, key: u64) -> (value: Option<&V>)
        ensures
            match value {
                Some(v) => self@.contains_key(key) && v@ == self@[key],
                None => !self@.contains_key(key),
            },
    {
        match self.find(key) {
            Some(i) => {
                proof {
                    use_type_invariant(self);
                    lemma_position_of_row(self.rows@, i as int);
                }
                Some(&self.rows[i].value)
            },
            None => None,
        }
    }

    /// Stores a value under a key that the table does not hold yet.
    pub fn insert(&mut self, key: u64, value: V)
        requires
            !old(self)@.contains_key(key),
        ensures
            final(self)@ == old(self)@.insert(key, value@),
    {
        proof {
            use_type_invariant(&*self);
        }
        let row = Row { key, value };
        let mut rows = Vec::new();
        std::mem::swap(&mut rows, &mut self.rows);
        proof {
            lemma_push_row(rows@, row);
        }
        rows.push(row);
        self.rows = rows;
    }

    /// Takes out the row with this key and hands back its value.
    pub fn remove(&mut self, key: u64) -> (value: Option<V>)
        ensures
            match value {
                Some(v) => {
                    &&& old(self)@.contains_key(key)
                    &&& v@ == old(self)@[key]
                    &&& final(self)@ == old(self)@.remove(key)
                },
                None => !old(self)@.contains_key(key) && final(self)@ == old(self)@,
            },
    {
        proof {
            use_type_invariant(&*self);
        }
        match self.find(key) {
            Some(i) => {
                let mut rows = Vec::new();
                std::mem::swap(&mut rows, &mut self.rows);
                proof {
                    lemma_position_of_row(rows@, i as int);
                    lemma_remove_row(rows@, i as int);
                }
                let row = rows.remove(i);
                self.rows = rows;
                Some(row.value)
            },
            None => None,
        }
    }

    /// Takes out every row.
    pub fn clear(&mut self)
        ensures
            final(self)@ == Map::<u64, V::V>::empty(),
    {
        self.rows = Vec::new();
    }
}

} // verus!
