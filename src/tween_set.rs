//! Named tweens, in the order they were first added, kept in an
//! `indexmap::IndexMap`.
use crate::tween::Tween;
use crate::value::Value;
use indexmap::IndexMap;
use vstd::prelude::*;

verus! {

/// One property of a [`TweenSet`].
pub struct Entry {
    pub name: String,
    pub tween: Tween,
}

#[verifier::external_type_specification]
#[verifier::external_body]
#[verifier::reject_recursive_types(K)]
#[verifier::reject_recursive_types(V)]
#[verifier::reject_recursive_types(S)]
pub struct ExIndexMap<K, V, S>(IndexMap<K, V, S>);

/// The entries of an index map of tweens, in the map's order.
pub uninterp spec fn indexed_tweens(m: IndexMap<String, Tween>) -> Seq<Entry>;

/// Relies on `IndexMap::new`: a new map is empty.
#[verifier::external_body]
fn map_new() -> (m: IndexMap<String, Tween>)
    ensures
        indexed_tweens(m).len() == 0,
{
    IndexMap::new()
}

/// Relies on `IndexMap::len`: the number of key-value pairs.
#[verifier::external_body]
fn map_len(m: &IndexMap<String, Tween>) -> (n: usize)
    ensures
        n == indexed_tweens(*m).len(),
{
    m.len()
}

/// Relies on `IndexMap::get_index_of`: the index of the pair whose key
/// equals `key`, if any.
#[verifier::external_body]
fn map_index_of(m: &IndexMap<String, Tween>, key: &str) -> (r: Option<usize>)
    ensures
        match r {
            Some(i) => i as int == position_of(indexed_tweens(*m), key@),
            None => position_of(indexed_tweens(*m), key@) == -1,
        },
{
    m.get_index_of(key)
}

/// Relies on `IndexMap::get_index`: the pair at `index`, present below
/// `len`.
#[verifier::external_body]
fn map_get_index(m: &IndexMap<String, Tween>, index: usize) -> (r: (&String, &Tween))
    requires
        index < indexed_tweens(*m).len(),
    ensures
        *r.0 == indexed_tweens(*m)[index as int].name,
        *r.1 == indexed_tweens(*m)[index as int].tween,
{
    m.get_index(index).unwrap()
}

/// Relies on `IndexMap::get_index_mut`: the value at `index` is replaced,
/// its key and every other pair stay.
#[verifier::external_body]
fn map_set_index(m: &mut IndexMap<String, Tween>, index: usize, tween: Tween)
    requires
        index < indexed_tweens(*old(m)).len(),
    ensures
        indexed_tweens(*final(m)) == indexed_tweens(*old(m)).update(
            index as int,
            Entry { name: indexed_tweens(*old(m))[index as int].name, tween },
        ),
{
    *m.get_index_mut(index).unwrap().1 = tween;
}

/// Relies on `IndexMap::insert`: an existing key keeps its place and takes
/// the new value; a new key goes last.
#[verifier::external_body]
fn map_insert(m: &mut IndexMap<String, Tween>, key: String, tween: Tween)
    ensures
        indexed_tweens(*final(m)) == ({
            let es = indexed_tweens(*old(m));
            let i = position_of(es, key@);
            if i >= 0 {
                es.update(i, Entry { name: es[i].name, tween })
            } else {
                es.push(Entry { name: key, tween })
            }
        }),
{
    m.insert(key, tween);
}

/// A map from property name to tween that keeps the order of insertion.
pub struct TweenSet {
    pub map: IndexMap<String, Tween>,
}

/// The first entry at or after `i` named `name`, or -1.
pub open spec fn position_from(entries: Seq<Entry>, name: Seq<char>, i: int) -> int
    decreases entries.len() - i,
{
    if i < 0 || i >= entries.len() {
        -1
    } else if entries[i].name@ == name {
        i
    } else {
        position_from(entries, name, i + 1)
    }
}

/// The entry named `name`, or -1.
pub open spec fn position_of(entries: Seq<Entry>, name: Seq<char>) -> int {
    position_from(entries, name, 0)
}

pub proof fn lemma_position_from(entries: Seq<Entry>, name: Seq<char>, i: int)
    requires
        0 <= i,
    ensures
        position_from(entries, name, i) == -1 || (i <= position_from(entries, name, i)
            < entries.len() && entries[position_from(entries, name, i)].name@ == name),
        position_from(entries, name, i) == -1 ==> forall|j: int|
            i <= j < entries.len() ==> #[trigger] entries[j].name@ != name,
    decreases entries.len() - i,
{
    if i < entries.len() && entries[i].name@ != name {
        lemma_position_from(entries, name, i + 1);
    }
}

/// Entries with the same names, in the same order, find a name at the
/// same place.
pub proof fn lemma_same_names(a: Seq<Entry>, b: Seq<Entry>, name: Seq<char>, i: int)
    requires
        a.len() == b.len(),
        forall|k: int| 0 <= k < a.len() ==> #[trigger] a[k].name@ == b[k].name@,
    ensures
        position_from(a, name, i) == position_from(b, name, i),
    decreases a.len() - i,
{
    if 0 <= i < a.len() && a[i].name@ != name {
        lemma_same_names(a, b, name, i + 1);
    }
}

/// Appending an entry keeps every name that was found, and finds its own.
pub proof fn lemma_push_finds(a: Seq<Entry>, e: Entry, name: Seq<char>, i: int)
    requires
        0 <= i <= a.len(),
    ensures
        position_from(a, name, i) >= 0 ==> position_from(a.push(e), name, i) == position_from(
            a,
            name,
            i,
        ),
        e.name@ == name ==> position_from(a.push(e), name, i) >= 0,
        e.name@ != name && position_from(a, name, i) == -1 ==> position_from(a.push(e), name, i)
            == -1,
    decreases a.len() - i,
{
    if i < a.len() {
        assert(a.push(e)[i] == a[i]);
        if a[i].name@ != name {
            lemma_push_finds(a, e, name, i + 1);
        }
    } else {
        assert(a.push(e)[i] == e);
        if e.name@ != name {
            assert(position_from(a.push(e), name, i + 1) == -1);
        }
    }
}

impl TweenSet {
    /// The entries, in the order their names were first inserted.
    pub open spec fn entries(self) -> Seq<Entry> {
        indexed_tweens(self.map)
    }

    /// No two entries share a name.
    pub open spec fn wf(self) -> bool {
        forall|i: int, j: int|
            0 <= i < j < self.entries().len() ==> #[trigger] self.entries()[i].name@
                != #[trigger] self.entries()[j].name@
    }

    pub open spec fn contains(self, name: Seq<char>) -> bool {
        position_of(self.entries(), name) >= 0
    }

    pub open spec fn position_of_spec(self, name: Seq<char>) -> int {
        position_of(self.entries(), name)
    }

    /// The tween named `name`; meaningful only where it is contained.
    pub open spec fn tween_of(self, name: Seq<char>) -> Tween {
        self.entries()[position_of(self.entries(), name)].tween
    }

    /// The set after [`TweenSet::insert`]: an existing entry keeps its
    /// place and takes the new tween, a new name goes last.
    pub open spec fn inserted(self, name: String, tween: Tween) -> Seq<Entry> {
        let i = position_of(self.entries(), name@);
        if i >= 0 {
            self.entries().update(i, Entry { name: self.entries()[i].name, tween })
        } else {
            self.entries().push(Entry { name, tween })
        }
    }

    pub fn new() -> (s: TweenSet)
        ensures
            s.wf(),
            s.entries().len() == 0,
    {
        TweenSet { map: map_new() }
    }

    pub fn len(&self) -> (n: usize)
        ensures
            n == self.entries().len(),
    {
        map_len(&self.map)
    }

    /// Where the tween named `name` stands.
    pub fn position(&self, name: &str) -> (r: Option<usize>)
        ensures
            match r {
                Some(i) => i as int == position_of(self.entries(), name@) && i < self.entries().len(),
                None => position_of(self.entries(), name@) == -1,
            },
    {
        proof {
            lemma_position_from(self.entries(), name@, 0);
        }
        map_index_of(&self.map, name)
    }

    /// The name at `i`.
    pub fn name_at(&self, i: usize) -> (n: &String)
        requires
            i < self.entries().len(),
        ensures
            *n == self.entries()[i as int].name,
    {
        map_get_index(&self.map, i).0
    }

    /// The tween at `i`.
    pub fn tween_at(&self, i: usize) -> (t: &Tween)
        requires
            i < self.entries().len(),
        ensures
            *t == self.entries()[i as int].tween,
    {
        map_get_index(&self.map, i).1
    }

    /// Replaces the tween at `i`, keeping its name.
    pub fn set_tween(&mut self, i: usize, tween: Tween)
        requires
            old(self).wf(),
            i < old(self).entries().len(),
        ensures
            final(self).wf(),
            final(self).entries() == old(self).entries().update(
                i as int,
                Entry { name: old(self).entries()[i as int].name, tween },
            ),
    {
        let ghost before = self.entries();
        map_set_index(&mut self.map, i, tween);
        proof {
            assert forall|a: int, b: int|
                0 <= a < b < self.entries().len() implies #[trigger] self.entries()[a].name@
                != #[trigger] self.entries()[b].name@ by {
                assert(before[a].name@ != before[b].name@);
            }
        }
    }

    /// Adds a tween under `name`, replacing the tween of an entry that
    /// already has that name.
    pub fn insert(&mut self, name: String, tween: Tween)
        requires
            old(self).wf(),
        ensures
            final(self).wf(),
            final(self).entries() == old(self).inserted(name, tween),
            final(self).contains(name@),
            forall|other: Seq<char>| old(self).contains(other) ==> #[trigger] final(self).contains(other),
            final(self).tween_of(name@) == tween,
            forall|other: Seq<char>|
                other != name@ && old(self).contains(other) ==> #[trigger] final(self).tween_of(other)
                    == old(self).tween_of(other),
    {
        let ghost before = self.entries();
        let ghost key = name@;
        proof {
            lemma_position_from(self.entries(), name@, 0);
        }
        map_insert(&mut self.map, name, tween);
        proof {
            let p = position_of(before, key);
            if p >= 0 {
                assert forall|k: int| 0 <= k < before.len() implies #[trigger] before[k].name@
                    == self.entries()[k].name@ by {}
                assert forall|other: Seq<char>| old(self).contains(other) implies #[trigger] self.contains(other) by {
                    lemma_same_names(before, self.entries(), other, 0);
                }
                lemma_same_names(before, self.entries(), key, 0);
                assert forall|other: Seq<char>|
                    other != key && old(self).contains(other) implies #[trigger] self.tween_of(other)
                    == old(self).tween_of(other) by {
                    lemma_same_names(before, self.entries(), other, 0);
                    lemma_position_from(before, other, 0);
                }
                assert forall|a: int, b: int| 0 <= a < b < self.entries().len() implies #[trigger] self.entries()[a].name@
                    != #[trigger] self.entries()[b].name@ by {
                    assert(before[a].name@ != before[b].name@);
                }
            } else {
                let e = self.entries().last();
                assert(self.entries() == before.push(e));
                assert forall|other: Seq<char>| old(self).contains(other) implies #[trigger] self.contains(other) by {
                    lemma_push_finds(before, e, other, 0);
                }
                lemma_push_finds(before, e, key, 0);
                lemma_position_from(self.entries(), key, 0);
                assert(position_of(self.entries(), key) == before.len()) by {
                    let q = position_of(self.entries(), key);
                    if q < before.len() {
                        assert(self.entries()[q] == before[q]);
                    }
                }
                assert forall|other: Seq<char>|
                    other != key && old(self).contains(other) implies #[trigger] self.tween_of(other)
                    == old(self).tween_of(other) by {
                    lemma_push_finds(before, e, other, 0);
                    lemma_position_from(before, other, 0);
                    assert(self.entries()[position_of(before, other)] == before[position_of(before, other)]);
                }
                assert forall|a: int, b: int| 0 <= a < b < self.entries().len() implies #[trigger] self.entries()[a].name@
                    != #[trigger] self.entries()[b].name@ by {
                    if b < before.len() {
                        assert(before[a].name@ != before[b].name@);
                    } else {
                        assert(before[a].name@ != key);
                    }
                }
            }
        }
    }

    /// The current value of the tween named `name`.
    pub fn value(&self, name: &str) -> (v: &Value)
        requires
            self.contains(name@),
        ensures
            *v == self.tween_of(name@).value,
    {
        let i: usize = match self.position(name) {
            Some(i) => i,
            None => 0,
        };
        &self.tween_at(i).value
    }
}

} // verus!
