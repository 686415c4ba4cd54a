//! The commit types of the question form, in a linked hash map.
//!
//! What the map holds is named by `linked_entries`, a sequence of name and
//! commit type in the map's order, oldest insertion first; the map's methods
//! are reached through wrappers whose contracts speak of that sequence.

use crate::commit_types::{
    default_commit_types, default_types, keys_unique, last_declared, lemma_default_names_distinct,
    lemma_position_is, lemma_position_none, lemma_position_of, lookup, position_of, views_of,
    CommitType, CommitTypeView, Entry,
};
use linked_hash_map::LinkedHashMap;
use vstd::prelude::*;

verus! {

#[verifier::external_type_specification]
#[verifier::external_body]
#[verifier::reject_recursive_types(K)]
#[verifier::reject_recursive_types(V)]
#[verifier::reject_recursive_types(S)]
pub struct ExLinkedHashMap<K, V, S>(LinkedHashMap<K, V, S>);

/// What a linked hash map holds: its entries in the order in which it hands
/// them out, which is that of their last insertion.
pub uninterp spec fn linked_entries(map: LinkedHashMap<String, CommitType>) -> Seq<Entry>;

/// The entries after `value` was inserted under `key`: the entry goes to
/// the end, and an entry that was there under the key leaves its place.
pub open spec fn relinked(entries: Seq<Entry>, key: Seq<char>, value: CommitTypeView) -> Seq<
    Entry,
> {
    match position_of(entries, key) {
        Some(i) => entries.remove(i).push((key, value)),
        None => entries.push((key, value)),
    }
}

/// The entries of the map made by inserting each commit type of `types`
/// under its name, first to last.
pub open spec fn linked(types: Seq<CommitTypeView>) -> Seq<Entry>
    decreases types.len(),
{
    if types.len() == 0 {
        Seq::empty()
    } else {
        relinked(linked(types.drop_last()), types.last().name, types.last())
    }
}

/// The keys of the entries, in their order.
pub open spec fn keys_of(entries: Seq<Entry>) -> Seq<Seq<char>> {
    Seq::new(entries.len(), |i: int| entries[i].0)
}

/// The views of a list of keys.
pub open spec fn key_views(keys: Seq<String>) -> Seq<Seq<char>> {
    Seq::new(keys.len(), |i: int| keys[i]@)
}

/// `LinkedHashMap::new`: a map without entries.
#[verifier::external_body]
pub(crate) fn linked_new() -> (map: LinkedHashMap<String, CommitType>)
    ensures
        linked_entries(map) == Seq::<Entry>::empty(),
{
    LinkedHashMap::new()
}

/// `LinkedHashMap::insert`: the value is stored under the key and the entry
/// becomes the last one; where the key was present, its earlier entry is
/// the one that moves.
#[verifier::external_body]
pub(crate) fn linked_insert(
    map: &mut LinkedHashMap<String, CommitType>,
    key: String,
    value: CommitType,
)
    ensures
        linked_entries(*final(map)) == relinked(linked_entries(*old(map)), key@, value@),
{
    map.insert(key, value);
}

/// `LinkedHashMap::get`: the value stored under the key, if the key is
/// present.
#[verifier::external_body]
pub(crate) fn linked_get<'a>(map: &'a LinkedHashMap<String, CommitType>, key: &str) -> (found:
    Option<&'a CommitType>)
    ensures
        match found {
            Some(value) => lookup(linked_entries(*map), key@) == Some(value@),
            None => lookup(linked_entries(*map), key@) is None,
        },
{
    map.get(key)
}

/// `LinkedHashMap::keys`: the keys in the map's order, each copied.
#[verifier::external_body]
pub(crate) fn linked_keys(map: &LinkedHashMap<String, CommitType>) -> (keys: Vec<String>)
    ensures
        key_views(keys@) == keys_of(linked_entries(*map)),
{
    map.keys().cloned().collect()
}

/// A list in which no name stands twice is linked entry by entry, in the
/// list's order.
pub proof fn lemma_linked_distinct(types: Seq<CommitTypeView>)
    requires
        forall|i: int, j: int|
            0 <= i < types.len() && 0 <= j < types.len() && i != j ==> (#[trigger] types[i]).name
                != (#[trigger] types[j]).name,
    ensures
        linked(types) == Seq::new(types.len(), |i: int| (types[i].name, types[i])),
    decreases types.len(),
{
    if types.len() > 0 {
        let front = types.drop_last();
        let last = types.last();
        assert forall|i: int, j: int|
            0 <= i < front.len() && 0 <= j < front.len() && i != j implies (#[trigger] front[i]).name
            != (#[trigger] front[j]).name by {
            assert(front[i] == types[i] && front[j] == types[j]);
        }
        lemma_linked_distinct(front);
        assert forall|i: int| 0 <= i < linked(front).len() implies (#[trigger] linked(front)[i]).0
            != last.name by {
            assert(front[i] == types[i]);
            assert(types[i].name != types[types.len() - 1].name);
        }
        lemma_position_none(linked(front), last.name);
        assert(linked(types) =~= Seq::new(types.len(), |i: int| (types[i].name, types[i])));
    } else {
        assert(linked(types) =~= Seq::new(types.len(), |i: int| (types[i].name, types[i])));
    }
}

/// Inserting keeps the keys unique, puts the entry last and stores the
/// value under the key.
pub proof fn lemma_relinked(entries: Seq<Entry>, key: Seq<char>, value: CommitTypeView)
    requires
        keys_unique(entries),
    ensures
        keys_unique(relinked(entries, key, value)),
        relinked(entries, key, value).last() == (key, value),
        lookup(relinked(entries, key, value), key) == Some(value),
{
    let after = relinked(entries, key, value);
    lemma_position_of(entries, key);
    match position_of(entries, key) {
        Some(at) => {
            let rest = entries.remove(at);
            assert forall|i: int| 0 <= i < rest.len() implies (#[trigger] rest[i]).0 != key by {
                if i < at {
                    assert(rest[i] == entries[i]);
                } else {
                    assert(rest[i] == entries[i + 1]);
                    assert(entries[i + 1].0 != entries[at].0);
                }
            }
            assert forall|i: int, j: int|
                0 <= i < after.len() && 0 <= j < after.len() && i != j implies after[i].0
                != after[j].0 by {
                if i < rest.len() && j < rest.len() {
                    let a = if i < at {
                        i
                    } else {
                        i + 1
                    };
                    let b = if j < at {
                        j
                    } else {
                        j + 1
                    };
                    assert(after[i] == entries[a] && after[j] == entries[b]);
                } else if i < rest.len() {
                    assert(after[i] == rest[i]);
                } else {
                    assert(after[j] == rest[j]);
                }
            }
            assert forall|i: int| 0 <= i < after.len() - 1 implies (#[trigger] after[i]).0
                != key by {
                assert(after[i] == rest[i]);
            }
            lemma_position_is(after, key, after.len() - 1);
        },
        None => {
            assert forall|i: int, j: int|
                0 <= i < after.len() && 0 <= j < after.len() && i != j implies after[i].0
                != after[j].0 by {
                if i < entries.len() {
                    assert(after[i] == entries[i]);
                }
                if j < entries.len() {
                    assert(after[j] == entries[j]);
                }
            }
            assert forall|i: int| 0 <= i < after.len() - 1 implies (#[trigger] after[i]).0
                != key by {
                assert(after[i] == entries[i]);
            }
            lemma_position_is(after, key, after.len() - 1);
        },
    }
}

/// Inserting under one key leaves what is stored under every other key.
pub proof fn lemma_relinked_other(
    entries: Seq<Entry>,
    key: Seq<char>,
    value: CommitTypeView,
    other: Seq<char>,
)
    requires
        other != key,
    ensures
        lookup(relinked(entries, key, value), other) == lookup(entries, other),
{
    let after = relinked(entries, key, value);
    lemma_position_of(entries, key);
    lemma_position_of(entries, other);
    // where each entry of `after`, but the last, stood before
    let gone = position_of(entries, key);
    let origin = |i: int|
        if gone is Some && i >= gone->0 {
            i + 1
        } else {
            i
        };
    assert forall|i: int| 0 <= i < after.len() - 1 implies #[trigger] after[i] == entries[origin(
        i,
    )] by {}
    match position_of(entries, other) {
        Some(x) => {
            let y = if gone is Some && x > gone->0 {
                x - 1
            } else {
                x
            };
            assert(origin(y) == x);
            assert(after[y] == entries[x]);
            assert forall|j: int| 0 <= j < y implies (#[trigger] after[j]).0 != other by {
                assert(after[j] == entries[origin(j)]);
            }
            lemma_position_is(after, other, y);
        },
        None => {
            assert forall|j: int| 0 <= j < after.len() implies (#[trigger] after[j]).0
                != other by {
                if j < after.len() - 1 {
                    assert(after[j] == entries[origin(j)]);
                }
            }
            lemma_position_none(after, other);
        },
    }
}

/// No key stands twice in a linked map.
pub proof fn lemma_linked_unique(types: Seq<CommitTypeView>)
    ensures
        keys_unique(linked(types)),
    decreases types.len(),
{
    if types.len() > 0 {
        lemma_linked_unique(types.drop_last());
        lemma_relinked(linked(types.drop_last()), types.last().name, types.last());
    }
}

/// Under a declared name a linked map holds the last commit type that was
/// declared with that name.
pub proof fn lemma_linked_lookup(types: Seq<CommitTypeView>, at: int)
    requires
        last_declared(types, at),
    ensures
        lookup(linked(types), types[at].name) == Some(types[at]),
    decreases types.len(),
{
    let front = types.drop_last();
    let last = types.last();
    lemma_linked_unique(front);
    lemma_relinked(linked(front), last.name, last);
    if at < types.len() - 1 {
        assert(types[types.len() - 1].name != types[at].name);
        assert(front[at] == types[at]);
        assert forall|j: int| at < j < front.len() implies (#[trigger] front[j]).name
            != front[at].name by {
            assert(front[j] == types[j]);
        }
        lemma_linked_lookup(front, at);
        lemma_relinked_other(linked(front), last.name, last, types[at].name);
    }
}

/// The commit types of the form, from a declared list: each commit type is
/// inserted under its name. A name declared twice stands once, at the place
/// of its last declaration and with it.
pub fn get_custom_commit_types(declared: &Vec<CommitType>) -> (map: LinkedHashMap<
    String,
    CommitType,
>)
    ensures
        linked_entries(map) == linked(views_of(declared@)),
        keys_unique(linked_entries(map)),
{
    let mut map = linked_new();
    let mut i: usize = 0;
    assert(views_of(declared@).subrange(0, 0) =~= Seq::<CommitTypeView>::empty());
    while i < declared.len()
        invariant
            i <= declared.len(),
            linked_entries(map) == linked(views_of(declared@).subrange(0, i as int)),
        decreases declared.len() - i,
    {
        let commit_type = declared[i].duplicate();
        let key = commit_type.name.clone();
        proof {
            let next = views_of(declared@).subrange(0, i + 1);
            assert(next.drop_last() =~= views_of(declared@).subrange(0, i as int));
            assert(next.last() == declared@[i as int]@);
        }
        linked_insert(&mut map, key, commit_type);
        i += 1;
    }
    proof {
        assert(views_of(declared@).subrange(0, declared.len() as int) =~= views_of(declared@));
        lemma_linked_unique(views_of(declared@));
    }
    map
}

/// The built-in commit types of the form: eleven entries, each under its
/// name, in the order of the list.
pub fn get_default_commit_types() -> (map: LinkedHashMap<String, CommitType>)
    ensures
        linked_entries(map) == linked(default_types()),
        linked_entries(map) == Seq::new(
            11,
            |i: int| (default_types()[i].name, default_types()[i]),
        ),
{
    let types = default_commit_types();
    proof {
        lemma_default_names_distinct();
        lemma_linked_distinct(default_types());
    }
    get_custom_commit_types(&types)
}

} // verus!
