//! Commit types and the ordered registry that maps a type's name to it.
//!
//! The registry is an `IndexMap`. What it holds is named by
//! `registry_entries`, a sequence of name and commit type in display order;
//! the map's methods are reached through wrappers whose contracts speak of
//! that sequence.

use crate::config::ConfigDocument;
use indexmap::IndexMap;
use vstd::prelude::*;
use vstd::string::*;

verus! {

/// One kind of change that a commit can announce.
#[derive(Clone, Debug, PartialEq, Eq)]
pub struct CommitType {
    pub description: String,
    pub emoji: Option<String>,
    pub name: String,
}

/// A commit type as plain text.
pub struct CommitTypeView {
    pub description: Seq<char>,
    pub emoji: Option<Seq<char>>,
    pub name: Seq<char>,
}

/// The view of an optional string.
pub open spec fn opt_view(text: Option<String>) -> Option<Seq<char>> {
    match text {
        Some(t) => Some(t@),
        None => None,
    }
}

impl View for CommitType {
    type V = CommitTypeView;

    open spec fn view(&self) -> CommitTypeView {
        CommitTypeView {
            description: self.description@,
            emoji: opt_view(self.emoji),
            name: self.name@,
        }
    }
}

impl CommitType {
    /// A commit type with the same texts.
    pub fn duplicate(&self) -> (copy: CommitType)
        ensures
            copy@ == self@,
    {
        let emoji = match &self.emoji {
            Some(e) => Some(e.clone()),
            None => None,
        };
        CommitType { description: self.description.clone(), emoji, name: self.name.clone() }
    }
}

/// The views of a list of commit types.
pub open spec fn views_of(types: Seq<CommitType>) -> Seq<CommitTypeView> {
    Seq::new(types.len(), |i: int| types[i]@)
}

/// One entry of a registry: the key and the commit type stored under it.
pub type Entry = (Seq<char>, CommitTypeView);

#[verifier::external_type_specification]
#[verifier::external_body]
#[verifier::reject_recursive_types(K)]
#[verifier::reject_recursive_types(V)]
#[verifier::reject_recursive_types(S)]
pub struct ExIndexMap<K, V, S>(IndexMap<K, V, S>);

/// What a registry holds: its entries in their order, which is the order in
/// which the keys were first inserted.
pub uninterp spec fn registry_entries(registry: IndexMap<String, CommitType>) -> Seq<Entry>;

/// The position of the first entry with `key`, if there is one.
pub open spec fn position_of(entries: Seq<Entry>, key: Seq<char>) -> Option<int>
    decreases entries.len(),
{
    if entries.len() == 0 {
        None
    } else {
        match position_of(entries.drop_last(), key) {
            Some(i) => Some(i),
            None => if entries.last().0 == key {
                Some(entries.len() - 1)
            } else {
                None
            },
        }
    }
}

/// The commit type stored under `key`, if there is one.
pub open spec fn lookup(entries: Seq<Entry>, key: Seq<char>) -> Option<CommitTypeView> {
    match position_of(entries, key) {
        Some(i) => Some(entries[i].1),
        None => None,
    }
}

/// The entries after `value` was inserted under `key`: a key that is
/// already there keeps its place and gets the new value, a new key goes to
/// the end.
pub open spec fn inserted(entries: Seq<Entry>, key: Seq<char>, value: CommitTypeView) -> Seq<
    Entry,
> {
    match position_of(entries, key) {
        Some(i) => entries.update(i, (key, value)),
        None => entries.push((key, value)),
    }
}

/// No key stands twice.
pub open spec fn keys_unique(entries: Seq<Entry>) -> bool {
    forall|i: int, j: int|
        0 <= i < entries.len() && 0 <= j < entries.len() && i != j ==> entries[i].0 != entries[j].0
}

/// The entries of the registry made by inserting each commit type of
/// `types` under its name, first to last.
pub open spec fn collected(types: Seq<CommitTypeView>) -> Seq<Entry>
    decreases types.len(),
{
    if types.len() == 0 {
        Seq::empty()
    } else {
        inserted(collected(types.drop_last()), types.last().name, types.last())
    }
}

/// The registry that belongs to a default list and a declared list: the
/// declared list where it is not empty, the default list otherwise. The two
/// are never mixed.
pub open spec fn built(defaults: Seq<CommitTypeView>, declared: Seq<CommitTypeView>) -> Seq<Entry> {
    if declared.len() == 0 {
        collected(defaults)
    } else {
        collected(declared)
    }
}

/// `IndexMap::new`: a map without entries.
#[verifier::external_body]
pub(crate) fn registry_new() -> (registry: IndexMap<String, CommitType>)
    ensures
        registry_entries(registry) == Seq::<Entry>::empty(),
{
    IndexMap::new()
}

/// `IndexMap::insert`: the value of a key that is present is replaced where
/// it stands; a key that is absent is added, with the value, as the last
/// entry.
#[verifier::external_body]
pub(crate) fn registry_insert(
    registry: &mut IndexMap<String, CommitType>,
    key: String,
    value: CommitType,
)
    ensures
        registry_entries(*final(registry)) == inserted(
            registry_entries(*old(registry)),
            key@,
            value@,
        ),
{
    registry.insert(key, value);
}

/// `IndexMap::get`: the value stored under the key, if the key is present.
#[verifier::external_body]
pub(crate) fn registry_get<'a>(registry: &'a IndexMap<String, CommitType>, key: &str) -> (found:
    Option<&'a CommitType>)
    ensures
        match found {
            Some(value) => lookup(registry_entries(*registry), key@) == Some(value@),
            None => lookup(registry_entries(*registry), key@) is None,
        },
{
    registry.get(key)
}

/// `IndexMap::len`: the number of entries.
#[verifier::external_body]
pub(crate) fn registry_len(registry: &IndexMap<String, CommitType>) -> (len: usize)
    ensures
        len == registry_entries(*registry).len(),
{
    registry.len()
}

/// `IndexMap::get_index`: the entry at a position, if the position is below
/// the number of entries.
#[verifier::external_body]
pub(crate) fn registry_get_index<'a>(registry: &'a IndexMap<String, CommitType>, index: usize) -> (found:
    Option<(&'a String, &'a CommitType)>)
    ensures
        match found {
            Some((key, value)) => index < registry_entries(*registry).len() && registry_entries(
                *registry,
            )[index as int] == (key@, value@),
            None => index >= registry_entries(*registry).len(),
        },
{
    registry.get_index(index)
}

/// A position that `position_of` gives lies in the sequence, holds the key,
/// and no earlier entry does; where it gives none, no entry holds the key.
pub proof fn lemma_position_of(entries: Seq<Entry>, key: Seq<char>)
    ensures
        match position_of(entries, key) {
            Some(i) => 0 <= i < entries.len() && entries[i].0 == key && forall|j: int|
                0 <= j < i ==> (#[trigger] entries[j]).0 != key,
            None => forall|j: int| 0 <= j < entries.len() ==> (#[trigger] entries[j]).0 != key,
        },
    decreases entries.len(),
{
    if entries.len() > 0 {
        let front = entries.drop_last();
        lemma_position_of(front, key);
        assert forall|j: int| 0 <= j < front.len() implies #[trigger] front[j] == entries[j] by {}
        match position_of(front, key) {
            Some(i) => {
                assert(front[i] == entries[i]);
                assert forall|j: int| 0 <= j < i implies (#[trigger] entries[j]).0 != key by {
                    assert(front[j] == entries[j]);
                }
            },
            None => {
                assert forall|j: int| 0 <= j < front.len() implies (#[trigger] entries[j]).0
                    != key by {
                    assert(front[j] == entries[j]);
                }
            },
        }
    }
}

/// The first position that holds the key is the one that `position_of`
/// gives.
pub proof fn lemma_position_is(entries: Seq<Entry>, key: Seq<char>, at: int)
    requires
        0 <= at < entries.len(),
        entries[at].0 == key,
        forall|j: int| 0 <= j < at ==> (#[trigger] entries[j]).0 != key,
    ensures
        position_of(entries, key) == Some(at),
{
    lemma_position_of(entries, key);
    match position_of(entries, key) {
        Some(i) => {
            if i < at {
                assert(entries[i].0 != key);
            }
            if at < i {
                assert(entries[at].0 != key);
            }
        },
        None => {
            assert(entries[at].0 != key);
        },
    }
}

/// Where no entry holds the key, `position_of` gives none.
pub proof fn lemma_position_none(entries: Seq<Entry>, key: Seq<char>)
    requires
        forall|j: int| 0 <= j < entries.len() ==> (#[trigger] entries[j]).0 != key,
    ensures
        position_of(entries, key) is None,
{
    lemma_position_of(entries, key);
    if position_of(entries, key) is Some {
        let i = position_of(entries, key)->0;
        assert(entries[i].0 != key);
    }
}

/// Inserting keeps the keys unique and stores the value under the key.
pub proof fn lemma_inserted(entries: Seq<Entry>, key: Seq<char>, value: CommitTypeView)
    requires
        keys_unique(entries),
    ensures
        keys_unique(inserted(entries, key, value)),
        lookup(inserted(entries, key, value), key) == Some(value),
{
    let after = inserted(entries, key, value);
    lemma_position_of(entries, key);
    match position_of(entries, key) {
        Some(i) => {
            assert forall|a: int, b: int|
                0 <= a < after.len() && 0 <= b < after.len() && a != b implies after[a].0
                != after[b].0 by {
                assert(after[a].0 == entries[a].0);
                assert(after[b].0 == entries[b].0);
            }
            assert forall|j: int| 0 <= j < i implies (#[trigger] after[j]).0 != key by {
                assert(after[j] == entries[j]);
            }
            lemma_position_is(after, key, i);
        },
        None => {
            assert forall|a: int, b: int|
                0 <= a < after.len() && 0 <= b < after.len() && a != b implies after[a].0
                != after[b].0 by {
                if a < entries.len() {
                    assert(after[a] == entries[a]);
                }
                if b < entries.len() {
                    assert(after[b] == entries[b]);
                }
            }
            assert forall|j: int| 0 <= j < entries.len() implies (#[trigger] after[j]).0
                != key by {
                assert(after[j] == entries[j]);
            }
            lemma_position_is(after, key, entries.len() as int);
        },
    }
}

/// Inserting under one key leaves what is stored under every other key.
pub proof fn lemma_inserted_other(
    entries: Seq<Entry>,
    key: Seq<char>,
    value: CommitTypeView,
    other: Seq<char>,
)
    requires
        other != key,
    ensures
        lookup(inserted(entries, key, value), other) == lookup(entries, other),
{
    let after = inserted(entries, key, value);
    lemma_position_of(entries, key);
    lemma_position_of(entries, other);
    match position_of(entries, other) {
        Some(x) => {
            assert(after[x] == entries[x]);
            assert forall|j: int| 0 <= j < x implies (#[trigger] after[j]).0 != other by {
                assert(entries[j].0 != other);
                if position_of(entries, key) == Some(j) {
                } else {
                    assert(after[j] == entries[j]);
                }
            }
            lemma_position_is(after, other, x);
        },
        None => {
            assert forall|j: int| 0 <= j < after.len() implies (#[trigger] after[j]).0
                != other by {
                if j < entries.len() {
                    assert(entries[j].0 != other);
                    if position_of(entries, key) == Some(j) {
                    } else {
                        assert(after[j] == entries[j]);
                    }
                }
            }
            lemma_position_none(after, other);
        },
    }
}

/// The commit type at `at` is the last one of the list with its name.
pub open spec fn last_declared(types: Seq<CommitTypeView>, at: int) -> bool {
    &&& 0 <= at < types.len()
    &&& forall|j: int| at < j < types.len() ==> (#[trigger] types[j]).name != types[at].name
}

/// No key stands twice in a collected registry.
pub proof fn lemma_collected_unique(types: Seq<CommitTypeView>)
    ensures
        keys_unique(collected(types)),
    decreases types.len(),
{
    if types.len() > 0 {
        lemma_collected_unique(types.drop_last());
        lemma_inserted(collected(types.drop_last()), types.last().name, types.last());
    }
}

/// Under a declared name a collected registry holds the last commit type
/// that was declared with that name.
pub proof fn lemma_collected_lookup(types: Seq<CommitTypeView>, at: int)
    requires
        last_declared(types, at),
    ensures
        lookup(collected(types), types[at].name) == Some(types[at]),
    decreases types.len(),
{
    let front = types.drop_last();
    let last = types.last();
    lemma_collected_unique(front);
    lemma_inserted(collected(front), last.name, last);
    if at < types.len() - 1 {
        assert(types[types.len() - 1].name != types[at].name);
        assert(front[at] == types[at]);
        assert forall|j: int| at < j < front.len() implies (#[trigger] front[j]).name
            != front[at].name by {
            assert(front[j] == types[j]);
        }
        lemma_collected_lookup(front, at);
        lemma_inserted_other(collected(front), last.name, last, types[at].name);
    }
}

/// Under a name that the list does not declare a collected registry holds
/// nothing.
pub proof fn lemma_collected_absent(types: Seq<CommitTypeView>, key: Seq<char>)
    requires
        forall|i: int| 0 <= i < types.len() ==> (#[trigger] types[i]).name != key,
    ensures
        lookup(collected(types), key) is None,
    decreases types.len(),
{
    if types.len() > 0 {
        let front = types.drop_last();
        let last = types.last();
        assert(types[types.len() - 1].name != key);
        assert forall|i: int| 0 <= i < front.len() implies (#[trigger] front[i]).name != key by {
            assert(front[i] == types[i]);
        }
        lemma_collected_absent(front, key);
        lemma_inserted_other(collected(front), last.name, last, key);
    }
}

/// A list in which no name stands twice is collected entry by entry, in the
/// list's order.
pub proof fn lemma_collected_distinct(types: Seq<CommitTypeView>)
    requires
        forall|i: int, j: int|
            0 <= i < types.len() && 0 <= j < types.len() && i != j ==> (#[trigger] types[i]).name
                != (#[trigger] types[j]).name,
    ensures
        collected(types) == Seq::new(types.len(), |i: int| (types[i].name, types[i])),
    decreases types.len(),
{
    if types.len() > 0 {
        let front = types.drop_last();
        let last = types.last();
        assert forall|i: int, j: int|
            0 <= i < front.len() && 0 <= j < front.len() && i != j implies (#[trigger] front[i]).name
            != (#[trigger] front[j]).name by {
            assert(front[i] == types[i] && front[j] == types[j]);
        }
        lemma_collected_distinct(front);
        assert forall|i: int| 0 <= i < front.len() implies (#[trigger] front[i]).name
            != last.name by {
            assert(front[i] == types[i]);
            assert(types[i].name != types[types.len() - 1].name);
        }
        lemma_collected_absent(front, last.name);
        assert(collected(types) =~= Seq::new(types.len(), |i: int| (types[i].name, types[i])));
    } else {
        assert(collected(types) =~= Seq::new(types.len(), |i: int| (types[i].name, types[i])));
    }
}

/// The replace-not-merge law of the registry: a declared list that is not
/// empty alone decides what the registry holds, whatever the defaults, so
/// that a name which only the defaults declare is absent; an empty declared
/// list gives the registry of the defaults.
pub proof fn lemma_replace_not_merge(
    defaults: Seq<CommitTypeView>,
    declared: Seq<CommitTypeView>,
)
    ensures
        declared.len() > 0 ==> built(defaults, declared) == collected(declared),
        declared.len() == 0 ==> built(defaults, declared) == collected(defaults),
        keys_unique(built(defaults, declared)),
        declared.len() > 0 ==> forall|at: int| #[trigger]
            last_declared(declared, at) ==> lookup(built(defaults, declared), declared[at].name)
                == Some(declared[at]),
        declared.len() > 0 ==> forall|key: Seq<char>|
            (forall|i: int| 0 <= i < declared.len() ==> (#[trigger] declared[i]).name != key)
                ==> #[trigger] lookup(built(defaults, declared), key) is None,
{
    lemma_collected_unique(defaults);
    lemma_collected_unique(declared);
    if declared.len() > 0 {
        assert forall|at: int| #[trigger] last_declared(declared, at) implies lookup(
            built(defaults, declared),
            declared[at].name,
        ) == Some(declared[at]) by {
            lemma_collected_lookup(declared, at);
        }
        assert forall|key: Seq<char>|
            (forall|i: int| 0 <= i < declared.len() ==> (#[trigger] declared[i]).name
                != key) implies #[trigger] lookup(built(defaults, declared), key) is None by {
            lemma_collected_absent(declared, key);
        }
    }
}

/// The registry built from a list alone: each commit type is inserted under
/// its name, so a name declared twice keeps its first place and its last
/// declaration.
pub fn registry_of(declared: &Vec<CommitType>) -> (registry: IndexMap<
    String,
    CommitType,
>)
    ensures
        registry_entries(registry) == collected(views_of(declared@)),
        keys_unique(registry_entries(registry)),
{
    let mut registry = registry_new();
    let mut i: usize = 0;
    while i < declared.len()
        invariant
            i <= declared.len(),
            registry_entries(registry) == collected(views_of(declared@).subrange(0, i as int)),
        decreases declared.len() - i,
    {
        let commit_type = declared[i].duplicate();
        let key = commit_type.name.clone();
        proof {
            let next = views_of(declared@).subrange(0, i + 1);
            assert(next.drop_last() =~= views_of(declared@).subrange(0, i as int));
            assert(next.last() == declared@[i as int]@);
        }
        registry_insert(&mut registry, key, commit_type);
        i += 1;
    }
    proof {
        assert(views_of(declared@).subrange(0, declared.len() as int) =~= views_of(declared@));
        lemma_collected_unique(views_of(declared@));
    }
    registry
}

/// Get commit types from a configuration document: the registry of the
/// commit types that the document declares.
pub fn get_commit_types(config: &ConfigDocument) -> (registry: IndexMap<String, CommitType>)
    ensures
        registry_entries(registry) == collected(views_of(config.commit_types@)),
        keys_unique(registry_entries(registry)),
{
    registry_of(&config.commit_types)
}

/// Builds the registry from the built-in list and the list that the user
/// declared. A declared list that is not empty replaces the built-in list
/// as a whole; an empty one leaves the built-in list in force.
pub fn build_registry(defaults: &Vec<CommitType>, declared: &Vec<CommitType>) -> (registry:
    IndexMap<String, CommitType>)
    ensures
        registry_entries(registry) == built(views_of(defaults@), views_of(declared@)),
        declared.len() == 0 ==> registry_entries(registry) == collected(views_of(defaults@)),
        declared.len() > 0 ==> registry_entries(registry) == collected(views_of(declared@)),
        keys_unique(registry_entries(registry)),
{
    if declared.len() == 0 {
        registry_of(defaults)
    } else {
        registry_of(declared)
    }
}

/// A commit type that carries an emoji, as plain text.
pub open spec fn type_view(name: &str, emoji: &str, description: &str) -> CommitTypeView {
    CommitTypeView { description: description@, emoji: Some(emoji@), name: name@ }
}

/// The built-in commit types, in the order in which they are offered.
pub open spec fn default_types() -> Seq<CommitTypeView> {
    seq![
        type_view("feat", "✨", "A new feature"),
        type_view("fix", "🐛", "A bug fix"),
        type_view("docs", "📚", "Documentation only changes"),
        type_view("style", "💄", "Changes that do not affect the meaning of the code"),
        type_view("refactor", "🔨", "A code change that neither fixes a bug nor adds a feature"),
        type_view("perf", "⚡", "A code change that improves performance"),
        type_view("test", "🚨", "Adding missing tests or correcting existing tests"),
        type_view("build", "📦", "Changes that affect the build system or external dependencies"),
        type_view("ci", "🤖", "Changes to our CI configuration files and scripts"),
        type_view("chore", "🧹", "Other changes that don't modify src or test files"),
        type_view("revert", "⏪", "Reverts a previous commit"),
    ]
}

/// The names of the built-in commit types differ from each other.
pub proof fn lemma_default_names_distinct()
    ensures
        default_types().len() == 11,
        forall|i: int, j: int|
            0 <= i < 11 && 0 <= j < 11 && i != j ==> (#[trigger] default_types()[i]).name != (
            #[trigger] default_types()[j]).name,
{
    reveal_strlit("feat");
    reveal_strlit("fix");
    reveal_strlit("docs");
    reveal_strlit("style");
    reveal_strlit("refactor");
    reveal_strlit("perf");
    reveal_strlit("test");
    reveal_strlit("build");
    reveal_strlit("ci");
    reveal_strlit("chore");
    reveal_strlit("revert");
    let types = default_types();
    assert(types[0].name.len() == 4 && types[0].name[0] == 'f');
    assert(types[1].name.len() == 3);
    assert(types[2].name.len() == 4 && types[2].name[0] == 'd');
    assert(types[3].name.len() == 5 && types[3].name[0] == 's');
    assert(types[4].name.len() == 8);
    assert(types[5].name.len() == 4 && types[5].name[0] == 'p');
    assert(types[6].name.len() == 4 && types[6].name[0] == 't');
    assert(types[7].name.len() == 5 && types[7].name[0] == 'b');
    assert(types[8].name.len() == 2);
    assert(types[9].name.len() == 5 && types[9].name[0] == 'c');
    assert(types[10].name.len() == 6);
}

/// The registry of the built-in commit types holds each of them, under its
/// name and in the list's order.
pub proof fn lemma_default_registry()
    ensures
        default_types().len() == 11,
        collected(default_types()) == Seq::new(
            11,
            |i: int| (default_types()[i].name, default_types()[i]),
        ),
{
    lemma_default_names_distinct();
    lemma_collected_distinct(default_types());
}

fn built_in(name: &str, emoji: &str, description: &str) -> (commit_type: CommitType)
    ensures
        commit_type@ == type_view(name, emoji, description),
{
    CommitType {
        description: String::from_str(description),
        emoji: Some(String::from_str(emoji)),
        name: String::from_str(name),
    }
}

/// The list of the built-in commit types.
pub fn default_commit_types() -> (types: Vec<CommitType>)
    ensures
        views_of(types@) == default_types(),
{
    let mut types: Vec<CommitType> = Vec::new();
    types.push(built_in("feat", "✨", "A new feature"));
    types.push(built_in("fix", "🐛", "A bug fix"));
    types.push(built_in("docs", "📚", "Documentation only changes"));
    types.push(built_in("style", "💄", "Changes that do not affect the meaning of the code"));
    types.push(
        built_in("refactor", "🔨", "A code change that neither fixes a bug nor adds a feature"),
    );
    types.push(built_in("perf", "⚡", "A code change that improves performance"));
    types.push(built_in("test", "🚨", "Adding missing tests or correcting existing tests"));
    types.push(
        built_in("build", "📦", "Changes that affect the build system or external dependencies"),
    );
    types.push(built_in("ci", "🤖", "Changes to our CI configuration files and scripts"));
    types.push(built_in("chore", "🧹", "Other changes that don't modify src or test files"));
    types.push(built_in("revert", "⏪", "Reverts a previous commit"));
    assert(views_of(types@) =~= default_types());
    types
}

/// The registry of the built-in commit types: eleven entries, each under
/// its name, in the order of the list.
pub fn default_registry() -> (registry: IndexMap<String, CommitType>)
    ensures
        registry_entries(registry) == collected(default_types()),
        registry_entries(registry) == Seq::new(
            11,
            |i: int| (default_types()[i].name, default_types()[i]),
        ),
{
    let types = default_commit_types();
    proof {
        lemma_default_registry();
    }
    registry_of(&types)
}

} // verus!
