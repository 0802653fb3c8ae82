//! Lists of entries keyed by name, each name at most once: what the
//! tracks, the effect chains and the mix weights of a score are held in.

use crate::text::str_eq;
use vstd::prelude::*;

verus! {

/// The names of a list of entries keyed by name.
pub open spec fn names_of<V>(entries: Seq<(String, V)>) -> Seq<Seq<char>> {
    Seq::new(entries.len(), |i: int| entries[i].0@)
}

/// The position of the first occurrence of `name` in `names`, or
/// `names.len()` if it does not occur.
pub open spec fn name_index(names: Seq<Seq<char>>, name: Seq<char>) -> int
    decreases names.len(),
{
    if names.len() == 0 || names[0] == name {
        0
    } else {
        1 + name_index(names.drop_first(), name)
    }
}

/// `name_index` is a position of `names` or its length; it holds `name` if it
/// is a position, and no earlier position does.
pub proof fn lemma_name_index(names: Seq<Seq<char>>, name: Seq<char>)
    ensures
        0 <= name_index(names, name) <= names.len(),
        name_index(names, name) < names.len() ==> names[name_index(names, name)] == name,
        forall|j: int| 0 <= j < name_index(names, name) ==> #[trigger] names[j] != name,
    decreases names.len(),
{
    if names.len() > 0 && names[0] != name {
        let rest = names.drop_first();
        lemma_name_index(rest, name);
        assert forall|j: int| 0 <= j < name_index(names, name) implies #[trigger] names[j]
            != name by {
            if j > 0 {
                assert(names[j] == rest[j - 1]);
            }
        }
    }
}

/// The position of the first entry with the given name, or the number of
/// entries if there is none.
pub fn find_name<V>(entries: &Vec<(String, V)>, name: &str) -> (i: usize)
    ensures
        i == name_index(names_of(entries@), name@),
        i <= entries@.len(),
        i < entries@.len() ==> entries@[i as int].0@ == name@,
{
    let ghost names = names_of(entries@);
    proof {
        lemma_name_index(names, name@);
    }
    let mut i: usize = 0;
    while i < entries.len()
        invariant
            i <= entries.len(),
            names == names_of(entries@),
            i <= name_index(names, name@) <= names.len(),
            name_index(names, name@) < names.len() ==> names[name_index(names, name@)] == name@,
            forall|j: int| 0 <= j < name_index(names, name@) ==> #[trigger] names[j] != name@,
        decreases entries.len() - i,
    {
        if str_eq(entries[i].0.as_str(), name) {
            assert(names[i as int] == name@);
            return i;
        }
        assert(names[i as int] != name@);
        i += 1;
    }
    i
}

/// The mathematical value of a list of entries keyed by name.
pub open spec fn named<V: View>(entries: Seq<(String, V)>) -> Seq<(Seq<char>, V::V)> {
    Seq::new(entries.len(), |i: int| (entries[i].0@, entries[i].1@))
}

/// The names of a keyed list.
pub open spec fn keys<W>(entries: Seq<(Seq<char>, W)>) -> Seq<Seq<char>> {
    Seq::new(entries.len(), |i: int| entries[i].0)
}

/// A keyed list with `name` bound to `value`: in the place of the entry that
/// has this name, or at the end where none has.
pub open spec fn put<W>(entries: Seq<(Seq<char>, W)>, name: Seq<char>, value: W) -> Seq<
    (Seq<char>, W),
> {
    let i = name_index(keys(entries), name);
    if i < entries.len() {
        entries.update(i, (name, value))
    } else {
        entries.push((name, value))
    }
}

/// Binds `name` to `value` in a keyed list: in the place of the entry that
/// has this name, or at the end where none has.
pub fn put_entry<V: View>(entries: &mut Vec<(String, V)>, name: &str, value: V)
    ensures
        named(final(entries)@) == put(named(old(entries)@), name@, value@),
{
    let ghost before = named(entries@);
    let i = find_name(entries, name);
    assert(names_of(entries@) =~= keys(before));
    if i < entries.len() {
        entries.set(i, (name.to_owned(), value));
        assert(named(entries@) =~= before.update(i as int, (name@, value@)));
    } else {
        entries.push((name.to_owned(), value));
        assert(named(entries@) =~= before.push((name@, value@)));
    }
}

/// Whether no name occurs twice.
pub open spec fn distinct(names: Seq<Seq<char>>) -> bool {
    forall|i: int, j: int| 0 <= i < j < names.len() ==> names[i] != names[j]
}

/// Whether every name of `wanted` occurs in `names`.
pub open spec fn covers(names: Seq<Seq<char>>, wanted: Seq<Seq<char>>) -> bool {
    forall|i: int| 0 <= i < wanted.len() ==> name_index(names, #[trigger] wanted[i]) < names.len()
}

/// A name occurs in a list exactly when `name_index` finds it.
pub proof fn lemma_name_found(names: Seq<Seq<char>>, name: Seq<char>, at: int)
    requires
        0 <= at < names.len(),
        names[at] == name,
    ensures
        name_index(names, name) <= at,
{
    lemma_name_index(names, name);
    if name_index(names, name) > at {
        assert(names[at] != name);
    }
}

/// Binding a name in a keyed list enters no name twice and loses none.
pub proof fn lemma_put_keys<W>(entries: Seq<(Seq<char>, W)>, name: Seq<char>, value: W)
    requires
        distinct(keys(entries)),
    ensures
        distinct(keys(put(entries, name, value))),
        name_index(keys(put(entries, name, value)), name) < put(entries, name, value).len(),
        forall|other: Seq<char>|
            name_index(keys(entries), other) < entries.len() ==> name_index(
                keys(put(entries, name, value)),
                other,
            ) < put(entries, name, value).len(),
{
    let before = keys(entries);
    let after = keys(put(entries, name, value));
    let i = name_index(before, name);
    lemma_name_index(before, name);
    if i < entries.len() {
        assert(after =~= before);
    } else {
        assert(after =~= before.push(name));
        lemma_name_found(after, name, entries.len() as int);
        assert forall|other: Seq<char>| name_index(before, other) < entries.len() implies name_index(
            after,
            other,
        ) < after.len() by {
            lemma_name_index(before, other);
            lemma_name_found(after, other, name_index(before, other));
        }
    }
}

} // verus!
