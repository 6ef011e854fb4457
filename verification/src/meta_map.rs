//! A map from fully-qualified metadata keys (`Namespace:Key`) to their
//! optional text, where a later insertion under the same key replaces the
//! earlier value.
use vstd::prelude::*;
use crate::text::opt_view;

verus! {

/// The map that a list of insertions builds, later ones winning.
pub open spec fn entries_map(s: Seq<(String, Option<String>)>) -> Map<Seq<char>, Option<Seq<char>>>
    decreases s.len(),
{
    if s.len() == 0 {
        Map::empty()
    } else {
        entries_map(s.drop_last()).insert(s.last().0@, opt_view(s.last().1))
    }
}

/// The last insertion under a key decides its value.
proof fn lemma_last_insertion_wins(s: Seq<(String, Option<String>)>, k: Seq<char>, i: int)
    requires
        0 <= i < s.len(),
        s[i].0@ == k,
        forall|j: int| i < j < s.len() ==> (#[trigger] s[j]).0@ != k,
    ensures
        entries_map(s).contains_key(k),
        entries_map(s)[k] == opt_view(s[i].1),
    decreases s.len(),
{
    if i < s.len() - 1 {
        let front = s.drop_last();
        assert forall|j: int| i < j < front.len() implies (#[trigger] front[j]).0@ != k by {
            assert(front[j] == s[j]);
        }
        lemma_last_insertion_wins(front, k, i);
        assert(s[s.len() - 1].0@ != k);
    }
}

/// A key never inserted is absent.
proof fn lemma_never_inserted(s: Seq<(String, Option<String>)>, k: Seq<char>)
    requires
        forall|j: int| 0 <= j < s.len() ==> (#[trigger] s[j]).0@ != k,
    ensures
        !entries_map(s).contains_key(k),
    decreases s.len(),
{
    if s.len() > 0 {
        let front = s.drop_last();
        assert forall|j: int| 0 <= j < front.len() implies (#[trigger] front[j]).0@ != k by {
            assert(front[j] == s[j]);
        }
        lemma_never_inserted(front, k);
        assert(s[s.len() - 1].0@ != k);
    }
}

/// Metadata keyed by `Namespace:Key`; values are `None` where the tag holds
/// no text.
pub struct MetadataMap {
    entries: Vec<(String, Option<String>)>,
}

impl View for MetadataMap {
    type V = Map<Seq<char>, Option<Seq<char>>>;

    closed spec fn view(&self) -> Map<Seq<char>, Option<Seq<char>>> {
        entries_map(self.entries@)
    }
}

impl MetadataMap {
    /// The insertions made so far, oldest first.
    pub closed spec fn insertions(&self) -> Seq<(String, Option<String>)> {
        self.entries@
    }

    /// The map is the one its insertions build.
    pub proof fn lemma_view_is_insertions(&self)
        ensures
            self@ == entries_map(self.insertions()),
    {
    }

    /// Reading a key gives back what was last written under it, and writing a
    /// key leaves every other key as it was: when `after` holds the
    /// insertions of `before` and then `key` set to `value`, `after` maps
    /// `key` to `value` and agrees with `before` on every other key.
    pub proof fn lemma_read_after_write(
        before: MetadataMap,
        after: MetadataMap,
        key: String,
        value: Option<String>,
        other: Seq<char>,
    )
        requires
            after.insertions() == before.insertions().push((key, value)),
            other != key@,
        ensures
            after@.contains_key(key@),
            after@[key@] == opt_view(value),
            after@.contains_key(other) == before@.contains_key(other),
            before@.contains_key(other) ==> after@[other] == before@[other],
    {
        assert(after.entries@.drop_last() =~= before.entries@);
    }

    /// An empty map.
    pub fn new() -> (r: Self)
        ensures
            r@ == Map::<Seq<char>, Option<Seq<char>>>::empty(),
            r.insertions() == Seq::<(String, Option<String>)>::empty(),
    {
        MetadataMap { entries: Vec::new() }
    }

    /// Sets the value of `key`, replacing any earlier one.
    pub fn insert(&mut self, key: String, value: Option<String>)
        ensures
            final(self)@ == old(self)@.insert(key@, opt_view(value)),
            final(self).insertions() == old(self).insertions().push((key, value)),
    {
        let ghost prev = self.entries@;
        self.entries.push((key, value));
        assert(self.entries@.drop_last() =~= prev);
    }

    /// The value stored under `key`, if the key is present.
    pub fn get(&self, key: &str) -> (r: Option<&Option<String>>)
        ensures
            match r {
                Some(v) => self@.contains_key(key@) && opt_view(*v) == self@[key@],
                None => !self@.contains_key(key@),
            },
    {
        let k = key.to_owned();
        let mut i: usize = self.entries.len();
        while i > 0
            invariant
                i <= self.entries.len(),
                k@ == key@,
                forall|j: int| i <= j < self.entries.len() ==> (#[trigger] self.entries@[j]).0@ != key@,
            decreases i,
        {
            if self.entries[i - 1].0 == k {
                proof {
                    lemma_last_insertion_wins(self.entries@, key@, i - 1);
                }
                return Some(&self.entries[i - 1].1);
            }
            i = i - 1;
        }
        proof {
            lemma_never_inserted(self.entries@, key@);
        }
        None
    }

    /// Whether `key` is present.
    pub fn contains_key(&self, key: &str) -> (r: bool)
        ensures
            r == self@.contains_key(key@),
    {
        self.get(key).is_some()
    }

    /// The insertions made so far, oldest first; replaying them in order
    /// rebuilds the map.
    pub fn entries(&self) -> (r: &Vec<(String, Option<String>)>)
        ensures
            r@ == self.insertions(),
    {
        &self.entries
    }
}

} // verus!
