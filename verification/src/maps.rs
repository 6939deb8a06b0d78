//! Maps with text keys, maps keyed by a path, and maps keyed by a repo and an
//! issue number.
//!
//! Each is a list of entries, seen as the map that those entries define when
//! they are applied in order.

use vstd::prelude::*;

use crate::ordered::insert_ascending;
use crate::paths::paths_equal;
use crate::text::str_eq;

verus! {

/// The map that `entries` define, a later entry replacing an earlier one.
pub open spec fn text_entries<V>(entries: Seq<(String, V)>) -> Map<Seq<char>, V>
    decreases entries.len(),
{
    if entries.len() == 0 {
        Map::empty()
    } else {
        text_entries(entries.drop_last()).insert(entries.last().0@, entries.last().1)
    }
}

/// A map from text.
#[derive(Debug)]
pub struct TextMap<V> {
    entries: Vec<(String, V)>,
}

impl<V> View for TextMap<V> {
    type V = Map<Seq<char>, V>;

    closed spec fn view(&self) -> Map<Seq<char>, V> {
        text_entries(self.entries@)
    }
}

/// A key is in the map exactly where an entry has it.
proof fn text_entries_absent<V>(entries: Seq<(String, V)>, key: Seq<char>)
    requires
        forall|i: int| 0 <= i < entries.len() ==> (#[trigger] entries[i]).0@ != key,
    ensures
        !text_entries(entries).contains_key(key),
    decreases entries.len(),
{
    if entries.len() > 0 {
        let rest = entries.drop_last();
        assert forall|i: int| 0 <= i < rest.len() implies (#[trigger] rest[i]).0@ != key by {
            assert(rest[i] == entries[i]);
        }
        text_entries_absent(rest, key);
        assert(entries[entries.len() - 1].0@ != key);
    }
}

/// The last entry with a key gives its value.
proof fn text_entries_last<V>(entries: Seq<(String, V)>, at: int)
    requires
        0 <= at < entries.len(),
        forall|i: int|
            at < i < entries.len() ==> (#[trigger] entries[i]).0@ != entries[at].0@,
    ensures
        text_entries(entries).contains_key(entries[at].0@),
        text_entries(entries)[entries[at].0@] == entries[at].1,
    decreases entries.len(),
{
    if at < entries.len() - 1 {
        let rest = entries.drop_last();
        assert forall|i: int| at < i < rest.len() implies (#[trigger] rest[i]).0@
            != rest[at].0@ by {
            assert(rest[i] == entries[i]);
        }
        text_entries_last(rest, at);
        assert(entries[entries.len() - 1].0@ != entries[at].0@);
    }
}

impl<V> TextMap<V> {
    /// An empty map.
    pub fn new() -> (map: TextMap<V>)
        ensures
            map@ == Map::<Seq<char>, V>::empty(),
    {
        TextMap { entries: Vec::new() }
    }

    /// The value of `key`.
    pub fn get(&self, key: &str) -> (value: Option<&V>)
        ensures
            match value {
                Some(value) => self@.contains_key(key@) && self@[key@] == *value,
                None => !self@.contains_key(key@),
            },
    {
        let mut i: usize = self.entries.len();
        while i > 0
            invariant
                i <= self.entries@.len(),
                forall|k: int|
                    i <= k < self.entries@.len() ==> (#[trigger] self.entries@[k]).0@ != key@,
            decreases i,
        {
            i -= 1;
            if str_eq(self.entries[i].0.as_str(), key) {
                proof {
                    text_entries_last(self.entries@, i as int);
                }
                return Some(&self.entries[i].1);
            }
        }
        proof {
            text_entries_absent(self.entries@, key@);
        }
        None
    }

    /// Whether `key` has a value.
    pub fn contains_key(&self, key: &str) -> (present: bool)
        ensures
            present == self@.contains_key(key@),
    {
        self.get(key).is_some()
    }

    /// Gives `key` a value, in place of the one that it had.
    pub fn insert(&mut self, key: &str, value: V)
        ensures
            final(self)@ == old(self)@.insert(key@, value),
    {
        self.entries.push((key.to_string(), value));
        assert(self.entries@.drop_last() =~= old(self).entries@);
    }

    /// Takes `key` out, and gives its value back.
    pub fn remove(&mut self, key: &str) -> (value: Option<V>)
        ensures
            final(self)@ == old(self)@.remove(key@),
            match value {
                Some(value) => old(self)@.contains_key(key@) && old(self)@[key@] == value,
                None => !old(self)@.contains_key(key@),
            },
    {
        let ghost before = self.entries@;
        let mut value: Option<V> = None;
        let mut kept: Vec<(String, V)> = Vec::new();
        let mut entries: Vec<(String, V)> = Vec::new();
        std::mem::swap(&mut entries, &mut self.entries);
        let ghost mut done: int = 0;
        assert(before.take(0) =~= Seq::<(String, V)>::empty());
        assert(before.skip(0) =~= before);
        while entries.len() > 0
            invariant
                0 <= done <= before.len(),
                entries@ == before.skip(done),
                text_entries(kept@) =~= text_entries(before.take(done)).remove(key@),
                match value {
                    Some(value) => text_entries(before.take(done)).contains_key(key@)
                        && text_entries(before.take(done))[key@] == value,
                    None => !text_entries(before.take(done)).contains_key(key@),
                },
            decreases entries@.len(),
        {
            let entry = entries.remove(0);
            let ghost kept_before = kept@;
            proof {
                assert(entry == before[done]);
                assert(before.take(done + 1).drop_last() =~= before.take(done));
                assert(entries@ =~= before.skip(done + 1));
                done = done + 1;
            }
            if str_eq(entry.0.as_str(), key) {
                value = Some(entry.1);
            } else {
                kept.push(entry);
                assert(kept@.drop_last() =~= kept_before);
            }
        }
        self.entries = kept;
        assert(before.take(done) =~= before);
        value
    }

    /// The entries that define the map, in the order in which they were made.
    pub fn entries(&self) -> (entries: &Vec<(String, V)>)
        ensures
            text_entries(entries@) == self@,
    {
        &self.entries
    }
}

/// The map that `entries` define, a later entry replacing an earlier one for the
/// same path.
pub open spec fn path_entries<V>(entries: Seq<(String, V)>) -> Map<Seq<Seq<char>>, V>
    decreases entries.len(),
{
    if entries.len() == 0 {
        Map::empty()
    } else {
        path_entries(entries.drop_last()).insert(
            crate::paths::path_components(entries.last().0@),
            entries.last().1,
        )
    }
}

/// A map from paths. Two spellings of one path are one key, and the view is
/// keyed by the components of the path.
#[derive(Debug)]
pub struct PathMap<V> {
    entries: Vec<(String, V)>,
}

impl<V> View for PathMap<V> {
    type V = Map<Seq<Seq<char>>, V>;

    closed spec fn view(&self) -> Map<Seq<Seq<char>>, V> {
        path_entries(self.entries@)
    }
}

/// The last entry for a path gives its value; without one it has none.
proof fn path_entries_last<V>(entries: Seq<(String, V)>, path: Seq<char>, at: int)
    requires
        -1 <= at < entries.len(),
        at >= 0 ==> crate::paths::same_path(entries[at].0@, path),
        forall|i: int|
            at < i < entries.len() ==> !crate::paths::same_path((#[trigger] entries[i]).0@, path),
    ensures
        at < 0 ==> !path_entries(entries).contains_key(crate::paths::path_components(path)),
        at >= 0 ==> path_entries(entries).contains_key(crate::paths::path_components(path))
            && path_entries(entries)[crate::paths::path_components(path)] == entries[at].1,
    decreases entries.len(),
{
    if at < entries.len() - 1 {
        let rest = entries.drop_last();
        assert forall|i: int| at < i < rest.len() implies !crate::paths::same_path(
            (#[trigger] rest[i]).0@,
            path,
        ) by {
            assert(rest[i] == entries[i]);
        }
        path_entries_last(rest, path, at);
        assert(!crate::paths::same_path(entries[entries.len() - 1].0@, path));
    }
}

impl<V> PathMap<V> {
    /// An empty map.
    pub fn new() -> (map: PathMap<V>)
        ensures
            map@ == Map::<Seq<Seq<char>>, V>::empty(),
    {
        PathMap { entries: Vec::new() }
    }

    /// The value of `path`, however it is spelled.
    pub fn get(&self, path: &str) -> (value: Option<&V>)
        ensures
            match value {
                Some(value) => self@.contains_key(crate::paths::path_components(path@))
                    && self@[crate::paths::path_components(path@)] == *value,
                None => !self@.contains_key(crate::paths::path_components(path@)),
            },
    {
        let mut i: usize = self.entries.len();
        while i > 0
            invariant
                i <= self.entries@.len(),
                forall|k: int|
                    i <= k < self.entries@.len() ==> !crate::paths::same_path(
                        (#[trigger] self.entries@[k]).0@,
                        path@,
                    ),
            decreases i,
        {
            i -= 1;
            if paths_equal(self.entries[i].0.as_str(), path) {
                proof {
                    path_entries_last(self.entries@, path@, i as int);
                }
                return Some(&self.entries[i].1);
            }
        }
        proof {
            path_entries_last(self.entries@, path@, -1);
        }
        None
    }

    /// Gives `path` a value, in place of the one that it had.
    pub fn insert(&mut self, path: &str, value: V)
        ensures
            final(self)@ == old(self)@.insert(crate::paths::path_components(path@), value),
    {
        self.entries.push((path.to_string(), value));
        assert(self.entries@.drop_last() =~= old(self).entries@);
    }

    /// Takes `path` out, however it is spelled, and gives its value back.
    pub fn remove(&mut self, path: &str) -> (value: Option<V>)
        ensures
            final(self)@ == old(self)@.remove(crate::paths::path_components(path@)),
            match value {
                Some(value) => old(self)@.contains_key(crate::paths::path_components(path@)) && old(self)@[crate::paths::path_components(path@)] == value,
                None => !old(self)@.contains_key(crate::paths::path_components(path@)),
            },
    {
        let ghost before = self.entries@;
        let mut value: Option<V> = None;
        let mut kept: Vec<(String, V)> = Vec::new();
        let mut entries: Vec<(String, V)> = Vec::new();
        std::mem::swap(&mut entries, &mut self.entries);
        let ghost mut done: int = 0;
        assert(before.take(0) =~= Seq::<(String, V)>::empty());
        assert(before.skip(0) =~= before);
        while entries.len() > 0
            invariant
                0 <= done <= before.len(),
                entries@ == before.skip(done),
                path_entries(kept@) =~= path_entries(before.take(done)).remove(crate::paths::path_components(path@)),
                match value {
                    Some(value) => path_entries(before.take(done)).contains_key(crate::paths::path_components(path@))
                        && path_entries(before.take(done))[crate::paths::path_components(path@)] == value,
                    None => !path_entries(before.take(done)).contains_key(crate::paths::path_components(path@)),
                },
            decreases entries@.len(),
        {
            let entry = entries.remove(0);
            let ghost kept_before = kept@;
            proof {
                assert(entry == before[done]);
                assert(before.take(done + 1).drop_last() =~= before.take(done));
                assert(entries@ =~= before.skip(done + 1));
                done = done + 1;
            }
            if paths_equal(entry.0.as_str(), path) {
                value = Some(entry.1);
            } else {
                kept.push(entry);
                assert(kept@.drop_last() =~= kept_before);
            }
        }
        self.entries = kept;
        assert(before.take(done) =~= before);
        value
    }
}

/// The map that `entries` define, a later entry replacing an earlier one.
pub open spec fn issue_entries<V>(entries: Seq<(String, u64, V)>) -> Map<(Seq<char>, u64), V>
    decreases entries.len(),
{
    if entries.len() == 0 {
        Map::empty()
    } else {
        issue_entries(entries.drop_last()).insert(
            (entries.last().0@, entries.last().1),
            entries.last().2,
        )
    }
}

/// A map from a repo and an issue number.
///
/// Issue numbers are only unique within a repo, so the number alone is never
/// the key.
#[derive(Debug)]
pub struct IssueMap<V> {
    entries: Vec<(String, u64, V)>,
}

impl<V> View for IssueMap<V> {
    type V = Map<(Seq<char>, u64), V>;

    closed spec fn view(&self) -> Map<(Seq<char>, u64), V> {
        issue_entries(self.entries@)
    }
}

proof fn issue_entries_absent<V>(entries: Seq<(String, u64, V)>, repo: Seq<char>, number: u64)
    requires
        forall|i: int|
            0 <= i < entries.len() ==> ((#[trigger] entries[i]).0@, entries[i].1) != (
                repo,
                number,
            ),
    ensures
        !issue_entries(entries).contains_key((repo, number)),
    decreases entries.len(),
{
    if entries.len() > 0 {
        let rest = entries.drop_last();
        assert forall|i: int| 0 <= i < rest.len() implies ((#[trigger] rest[i]).0@, rest[i].1) != (
            repo,
            number,
        ) by {
            assert(rest[i] == entries[i]);
        }
        issue_entries_absent(rest, repo, number);
        assert((entries[entries.len() - 1].0@, entries[entries.len() - 1].1) != (repo, number));
    }
}

proof fn issue_entries_last<V>(entries: Seq<(String, u64, V)>, at: int)
    requires
        0 <= at < entries.len(),
        forall|i: int|
            at < i < entries.len() ==> ((#[trigger] entries[i]).0@, entries[i].1) != (
                entries[at].0@,
                entries[at].1,
            ),
    ensures
        issue_entries(entries).contains_key((entries[at].0@, entries[at].1)),
        issue_entries(entries)[(entries[at].0@, entries[at].1)] == entries[at].2,
    decreases entries.len(),
{
    if at < entries.len() - 1 {
        let rest = entries.drop_last();
        assert forall|i: int| at < i < rest.len() implies ((#[trigger] rest[i]).0@, rest[i].1) != (
            rest[at].0@,
            rest[at].1,
        ) by {
            assert(rest[i] == entries[i]);
        }
        issue_entries_last(rest, at);
        assert((entries[entries.len() - 1].0@, entries[entries.len() - 1].1) != (
            entries[at].0@,
            entries[at].1,
        ));
    }
}

impl<V> IssueMap<V> {
    /// An empty map.
    pub fn new() -> (map: IssueMap<V>)
        ensures
            map@ == Map::<(Seq<char>, u64), V>::empty(),
    {
        IssueMap { entries: Vec::new() }
    }

    /// The value for `number` in `repo`.
    pub fn get(&self, repo: &str, number: u64) -> (value: Option<&V>)
        ensures
            match value {
                Some(value) => self@.contains_key((repo@, number)) && self@[(repo@, number)]
                    == *value,
                None => !self@.contains_key((repo@, number)),
            },
    {
        let mut i: usize = self.entries.len();
        while i > 0
            invariant
                i <= self.entries@.len(),
                forall|k: int|
                    i <= k < self.entries@.len() ==> (
                        (#[trigger] self.entries@[k]).0@,
                        self.entries@[k].1,
                    ) != (repo@, number),
            decreases i,
        {
            i -= 1;
            if self.entries[i].1 == number && str_eq(self.entries[i].0.as_str(), repo) {
                proof {
                    issue_entries_last(self.entries@, i as int);
                }
                return Some(&self.entries[i].2);
            }
        }
        proof {
            issue_entries_absent(self.entries@, repo@, number);
        }
        None
    }

    /// Whether `number` in `repo` has a value.
    pub fn contains_key(&self, repo: &str, number: u64) -> (present: bool)
        ensures
            present == self@.contains_key((repo@, number)),
    {
        self.get(repo, number).is_some()
    }

    /// The numbers in `repo` that have a value, in ascending order.
    pub fn numbers_in(&self, repo: &str) -> (numbers: Vec<u64>)
        ensures
            crate::ordered::is_ascending(numbers@),
            forall|number: u64| #[trigger]
                numbers@.contains(number) <==> self@.contains_key((repo@, number)),
    {
        let mut numbers: Vec<u64> = Vec::new();
        let mut i: usize = 0;
        assert(self.entries@.take(0) =~= Seq::<(String, u64, V)>::empty());
        while i < self.entries.len()
            invariant
                i <= self.entries@.len(),
                crate::ordered::is_ascending(numbers@),
                forall|number: u64| #[trigger]
                    numbers@.contains(number) <==> issue_entries(
                        self.entries@.take(i as int),
                    ).contains_key((repo@, number)),
            decreases self.entries@.len() - i,
        {
            let ghost before = numbers@;
            if str_eq(self.entries[i].0.as_str(), repo) {
                insert_ascending(&mut numbers, self.entries[i].1);
            }
            proof {
                let entry = self.entries@[i as int];
                assert(self.entries@.take(i + 1).drop_last() =~= self.entries@.take(i as int));
                assert forall|number: u64| #[trigger]
                    numbers@.contains(number) <==> issue_entries(
                        self.entries@.take(i + 1),
                    ).contains_key((repo@, number)) by {
                    assert(before.contains(number) <==> issue_entries(
                        self.entries@.take(i as int),
                    ).contains_key((repo@, number)));
                }
            }
            i += 1;
        }
        assert(self.entries@.take(i as int) =~= self.entries@);
        numbers
    }

    /// Gives `number` in `repo` a value, in place of the one that it had.
    pub fn insert(&mut self, repo: &str, number: u64, value: V)
        ensures
            final(self)@ == old(self)@.insert((repo@, number), value),
    {
        self.entries.push((repo.to_string(), number, value));
        assert(self.entries@.drop_last() =~= old(self).entries@);
    }
}

} // verus!
