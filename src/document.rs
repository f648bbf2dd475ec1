use vstd::prelude::*;

verus! {

/// A value of a map document in a TOML-like configuration format. Numbers
/// with a fractional part have the geometry's scalar type `N`.
#[derive(Debug)]
pub enum DocValue<N> {
    Text(String),
    Integer(i64),
    Float(N),
    Boolean(bool),
    Datetime(String),
    Array(Vec<DocValue<N>>),
    /// Keyed entries, in the order in which the document is walked.
    Table(Vec<(String, DocValue<N>)>),
}

/// The position of the first entry keyed `key`, or `entries.len()` if none is.
pub open spec fn key_index<V>(entries: Seq<(String, V)>, key: Seq<char>) -> nat
    decreases entries.len(),
{
    if entries.len() == 0 {
        0
    } else {
        let k = key_index(entries.drop_last(), key);
        if k < entries.len() - 1 {
            k
        } else if entries.last().0@ == key {
            (entries.len() - 1) as nat
        } else {
            entries.len()
        }
    }
}

/// The value of the first entry keyed `key`.
pub open spec fn field<V>(entries: Seq<(String, V)>, key: Seq<char>) -> Option<V> {
    let k = key_index(entries, key);
    if k < entries.len() {
        Some(entries[k as int].1)
    } else {
        None
    }
}

proof fn lemma_key_index_bound<V>(entries: Seq<(String, V)>, key: Seq<char>)
    ensures
        key_index(entries, key) <= entries.len(),
        key_index(entries, key) < entries.len() ==> entries[key_index(entries, key) as int].0@
            == key,
    decreases entries.len(),
{
    if entries.len() > 0 {
        lemma_key_index_bound(entries.drop_last(), key);
    }
}

/// Finds the first entry keyed `key`.
pub fn find_key<V>(entries: &Vec<(String, V)>, key: &str) -> (r: Option<usize>)
    ensures
        r is None <==> key_index(entries@, key@) == entries@.len(),
        r matches Some(i) ==> i == key_index(entries@, key@) && i < entries@.len(),
{
    proof {
        lemma_key_index_bound(entries@, key@);
    }
    let mut i: usize = 0;
    while i < entries.len()
        invariant
            0 <= i <= entries@.len(),
            key_index(entries@.take(i as int), key@) == i,
        decreases entries.len() - i,
    {
        assert(entries@.take(i + 1).drop_last() == entries@.take(i as int));
        if crate::text::text_equals(entries[i].0.as_str(), key) {
            proof {
                lemma_key_index_prefix(entries@, key@, i + 1);
            }
            return Some(i);
        }
        i += 1;
    }
    assert(entries@.take(entries@.len() as int) == entries@);
    None
}

proof fn lemma_key_index_prefix<V>(entries: Seq<(String, V)>, key: Seq<char>, j: int)
    requires
        0 <= j <= entries.len(),
        key_index(entries.take(j), key) < j,
    ensures
        key_index(entries, key) == key_index(entries.take(j), key),
    decreases entries.len() - j,
{
    if j < entries.len() {
        assert(entries.take(j + 1).drop_last() == entries.take(j));
        lemma_key_index_prefix(entries, key, j + 1);
    } else {
        assert(entries.take(j) == entries);
    }
}

} // verus!
