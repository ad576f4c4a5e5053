//! The manifest of an incremental build: the modification time of each
//! source file when it was last built.
use vstd::prelude::*;

use crate::path::{components, same_path};

verus! {

/// A point in time as seconds and nanoseconds since the Unix epoch.
#[derive(Debug, Clone, Copy, PartialEq, Eq, Structural)]
pub struct Timestamp {
    pub secs: u64,
    pub nanos: u32,
}

/// Whether `a` is later than `b`.
pub open spec fn later(a: Timestamp, b: Timestamp) -> bool {
    a.secs > b.secs || (a.secs == b.secs && a.nanos > b.nanos)
}

/// Whether `a` is later than `b`.
pub fn is_later(a: Timestamp, b: Timestamp) -> (r: bool)
    ensures
        r == later(a, b),
{
    a.secs > b.secs || (a.secs == b.secs && a.nanos > b.nanos)
}

/// The map of a list of entries: each path, taken by its components, to
/// the time of its last entry.
pub open spec fn entries_map(entries: Seq<(String, Timestamp)>) -> Map<Seq<Seq<char>>, Timestamp>
    decreases entries.len(),
{
    if entries.len() == 0 {
        Map::empty()
    } else {
        entries_map(entries.drop_last()).insert(
            components(entries.last().0@),
            entries.last().1,
        )
    }
}

/// No two entries name the same path.
pub open spec fn distinct_paths(entries: Seq<(String, Timestamp)>) -> bool {
    forall|i: int, j: int|
        0 <= i < entries.len() && 0 <= j < entries.len() && i != j ==> components(
            (#[trigger] entries[i]).0@,
        ) != components((#[trigger] entries[j]).0@)
}

/// The build manifest: the file it is saved to and the time each source
/// file was last built.
#[derive(Debug, Clone)]
pub struct Manifest {
    file: String,
    entries: Vec<(String, Timestamp)>,
}

/// Entries with distinct paths map each of their paths to its time.
pub proof fn lemma_entries_map_at(entries: Seq<(String, Timestamp)>, i: int)
    requires
        distinct_paths(entries),
        0 <= i < entries.len(),
    ensures
        entries_map(entries).contains_key(components(entries[i].0@)),
        entries_map(entries)[components(entries[i].0@)] == entries[i].1,
    decreases entries.len(),
{
    let init = entries.drop_last();
    if i < entries.len() - 1 {
        assert(init[i] == entries[i]);
        assert(distinct_paths(init)) by {
            assert forall|a: int, b: int|
                0 <= a < init.len() && 0 <= b < init.len() && a != b implies components(
                (#[trigger] init[a]).0@,
            ) != components((#[trigger] init[b]).0@) by {
                assert(init[a] == entries[a] && init[b] == entries[b]);
            }
        }
        lemma_entries_map_at(init, i);
        assert(components(entries.last().0@) != components(entries[i].0@)) by {
            assert(entries.last() == entries[entries.len() - 1]);
        }
    }
}

/// The keys of the map are the paths of the entries.
pub proof fn lemma_entries_map_keys(entries: Seq<(String, Timestamp)>, key: Seq<Seq<char>>)
    ensures
        entries_map(entries).contains_key(key) <==> exists|i: int|
            0 <= i < entries.len() && components((#[trigger] entries[i]).0@) == key,
    decreases entries.len(),
{
    if entries.len() > 0 {
        let init = entries.drop_last();
        lemma_entries_map_keys(init, key);
        if entries_map(entries).contains_key(key) {
            if components(entries.last().0@) == key {
                assert(entries[entries.len() - 1] == entries.last());
            } else {
                let i = choose|i: int| 0 <= i < init.len() && components((#[trigger] init[i]).0@) == key;
                assert(entries[i] == init[i]);
            }
        }
        if exists|i: int| 0 <= i < entries.len() && components((#[trigger] entries[i]).0@) == key {
            let i = choose|i: int| 0 <= i < entries.len() && components((#[trigger] entries[i]).0@) == key;
            if i < entries.len() - 1 {
                assert(entries[i] == init[i]);
            }
        }
    }
}

impl Manifest {
    /// No two entries name the same path.
    pub closed spec fn wf(&self) -> bool {
        distinct_paths(self.entries@)
    }

    /// The time each path, taken by its components, was last built.
    pub closed spec fn times(&self) -> Map<Seq<Seq<char>>, Timestamp> {
        entries_map(self.entries@)
    }

    /// The file the manifest is saved to.
    pub closed spec fn path(&self) -> Seq<char> {
        self.file@
    }

    /// The file the manifest is saved to.
    pub fn file(&self) -> (r: &str)
        ensures
            r@ == self.path(),
    {
        self.file.as_str()
    }

    /// An empty manifest saved to `file`.
    pub fn new(file: String) -> (r: Self)
        ensures
            r.wf(),
            r.path() == file@,
            r.times() == Map::<Seq<Seq<char>>, Timestamp>::empty(),
    {
        Manifest { file, entries: Vec::new() }
    }

    /// The entries of the manifest, one per path.
    pub fn entries(&self) -> (r: &Vec<(String, Timestamp)>)
        requires
            self.wf(),
        ensures
            distinct_paths(r@),
            entries_map(r@) == self.times(),
    {
        &self.entries
    }

    /// The index of the entry for `file`, if any.
    fn find(&self, file: &str) -> (r: Option<usize>)
        requires
            self.wf(),
        ensures
            match r {
                Some(i) => i < self.entries@.len() && components(self.entries@[i as int].0@)
                    == components(file@),
                None => forall|k: int|
                    0 <= k < self.entries@.len() ==> components((#[trigger] self.entries@[k]).0@)
                        != components(file@),
            },
    {
        let mut i: usize = 0;
        while i < self.entries.len()
            invariant
                i <= self.entries@.len(),
                forall|k: int|
                    0 <= k < i ==> components((#[trigger] self.entries@[k]).0@) != components(
                        file@,
                    ),
            decreases self.entries@.len() - i,
        {
            if same_path(self.entries[i].0.as_str(), file) {
                return Some(i);
            }
            i = i + 1;
        }
        None
    }

    /// The time `file` was last built, if it is in the manifest.
    pub fn entry(&self, file: &str) -> (r: Option<Timestamp>)
        requires
            self.wf(),
        ensures
            r is Some == self.times().contains_key(components(file@)),
            r matches Some(t) ==> t == self.times()[components(file@)],
    {
        proof {
            lemma_entries_map_keys(self.entries@, components(file@));
        }
        match self.find(file) {
            Some(i) => {
                proof {
                    lemma_entries_map_at(self.entries@, i as int);
                }
                Some(self.entries[i].1)
            },
            None => None,
        }
    }

    /// Whether `file` is in the manifest.
    pub fn contains(&self, file: &str) -> (r: bool)
        requires
            self.wf(),
        ensures
            r == self.times().contains_key(components(file@)),
    {
        self.entry(file).is_some()
    }

    /// Whether `file` must be built again: always when forced or when its
    /// build product `dest` does not exist; else when it is in the manifest,
    /// its current modification time is known and is later than the time
    /// in the manifest.
    pub fn is_dirty(
        &self,
        file: &str,
        dest_exists: bool,
        current: Option<Timestamp>,
        force: bool,
    ) -> (r: bool)
        requires
            self.wf(),
        ensures
            r == (force || !dest_exists || modified_since(self.times(), file@, current)),
    {
        if force || !dest_exists {
            return true;
        }
        match (self.entry(file), current) {
            (Some(entry), Some(current)) => is_later(current, entry),
            _ => false,
        }
    }

    /// Record `modified` as the time `file` was built; a file whose time is
    /// unknown is left as it is.
    pub fn touch(&mut self, file: &str, modified: Option<Timestamp>)
        requires
            old(self).wf(),
        ensures
            final(self).wf(),
            final(self).path() == old(self).path(),
            match modified {
                Some(t) => final(self).times() == old(self).times().insert(components(file@), t),
                None => final(self).times() == old(self).times(),
            },
    {
        if let Some(value) = modified {
            let ghost before = self.entries@;
            match self.find(file) {
                Some(i) => {
                    let key = self.entries[i].0.clone();
                    self.entries.set(i, (key, value));
                    proof {
                        lemma_entries_map_set(before, i as int, value);
                        assert(components(key@) == components(file@));
                        assert forall|a: int, b: int|
                            0 <= a < self.entries@.len() && 0 <= b < self.entries@.len() && a
                                != b implies components((#[trigger] self.entries@[a]).0@)
                            != components((#[trigger] self.entries@[b]).0@) by {
                            assert(self.entries@[a].0 == before[a].0);
                            assert(self.entries@[b].0 == before[b].0);
                        }
                    }
                },
                None => {
                    self.entries.push((file.to_owned(), value));
                    proof {
                        assert(self.entries@.drop_last() =~= before);
                        assert forall|a: int, b: int|
                            0 <= a < self.entries@.len() && 0 <= b < self.entries@.len() && a
                                != b implies components((#[trigger] self.entries@[a]).0@)
                            != components((#[trigger] self.entries@[b]).0@) by {
                            if a < before.len() {
                                assert(self.entries@[a] == before[a]);
                            }
                            if b < before.len() {
                                assert(self.entries@[b] == before[b]);
                            }
                        }
                    }
                },
            }
        }
    }

    /// Touch every file with its modification time, in order.
    pub fn update(&mut self, files: &Vec<(String, Option<Timestamp>)>)
        requires
            old(self).wf(),
        ensures
            final(self).wf(),
            final(self).path() == old(self).path(),
            final(self).times() == touched_all(old(self).times(), files@),
    {
        let mut i: usize = 0;
        while i < files.len()
            invariant
                self.wf(),
                self.path() == old(self).path(),
                i <= files@.len(),
                self.times() == touched_all(old(self).times(), files@.take(i as int)),
            decreases files@.len() - i,
        {
            proof {
                assert(files@.take(i + 1).drop_last() =~= files@.take(i as int));
            }
            self.touch(files[i].0.as_str(), files[i].1);
            i = i + 1;
        }
        proof {
            assert(files@.take(files@.len() as int) =~= files@);
        }
    }
}

/// Whether `file` is in the manifest and `current` is a modification time
/// later than the one recorded for it.
pub open spec fn modified_since(
    times: Map<Seq<Seq<char>>, Timestamp>,
    file: Seq<char>,
    current: Option<Timestamp>,
) -> bool {
    match current {
        Some(c) => times.contains_key(components(file)) && later(c, times[components(file)]),
        None => false,
    }
}

/// The times after touching each file in order.
pub open spec fn touched_all(
    times: Map<Seq<Seq<char>>, Timestamp>,
    files: Seq<(String, Option<Timestamp>)>,
) -> Map<Seq<Seq<char>>, Timestamp>
    decreases files.len(),
{
    if files.len() == 0 {
        times
    } else {
        let before = touched_all(times, files.drop_last());
        match files.last().1 {
            Some(t) => before.insert(components(files.last().0@), t),
            None => before,
        }
    }
}

/// Replacing the time of one entry, whose path no other entry has, replaces
/// the time of that path in the map.
pub proof fn lemma_entries_map_set(entries: Seq<(String, Timestamp)>, i: int, t: Timestamp)
    requires
        distinct_paths(entries),
        0 <= i < entries.len(),
    ensures
        entries_map(entries.update(i, (entries[i].0, t))) == entries_map(entries).insert(
            components(entries[i].0@),
            t,
        ),
    decreases entries.len(),
{
    let updated = entries.update(i, (entries[i].0, t));
    let key = components(entries[i].0@);
    let init = entries.drop_last();
    assert(distinct_paths(init)) by {
        assert forall|a: int, b: int|
            0 <= a < init.len() && 0 <= b < init.len() && a != b implies components(
            (#[trigger] init[a]).0@,
        ) != components((#[trigger] init[b]).0@) by {
            assert(init[a] == entries[a] && init[b] == entries[b]);
        }
    }
    if i == entries.len() - 1 {
        assert(updated.drop_last() =~= init);
        assert(!entries_map(init).contains_key(key)) by {
            lemma_entries_map_keys(init, key);
            if entries_map(init).contains_key(key) {
                let k = choose|k: int| 0 <= k < init.len() && components((#[trigger] init[k]).0@) == key;
                assert(init[k] == entries[k]);
            }
        }
        assert(entries_map(updated) =~= entries_map(entries).insert(key, t));
    } else {
        lemma_entries_map_set(init, i, t);
        assert(updated.drop_last() =~= init.update(i, (init[i].0, t)));
        assert(init[i] == entries[i]);
        assert(updated.last() == entries.last());
        assert(components(entries.last().0@) != key) by {
            assert(entries.last() == entries[entries.len() - 1]);
        }
        assert(entries_map(updated) =~= entries_map(entries).insert(key, t));
    }
}

/// After a file is touched with a time, the manifest holds it with that
/// time, and the file is not dirty when its build product exists, nothing
/// forces a build and it has not been modified since.
pub proof fn lemma_touch_then_clean(
    before: Map<Seq<Seq<char>>, Timestamp>,
    after: Map<Seq<Seq<char>>, Timestamp>,
    file: Seq<char>,
    t: Timestamp,
)
    requires
        after == before.insert(components(file), t),
    ensures
        after.contains_key(components(file)),
        after[components(file)] == t,
        !(after.contains_key(components(file)) && later(t, after[components(file)])),
{
}


/// The instant of a time in nanoseconds since the epoch.
pub open spec fn instant_nanos(t: Timestamp) -> int {
    t.secs * 1_000_000_000 + t.nanos
}

/// One time is later than another exactly when it is a later instant:
/// compared as whole instants, seconds first, whatever the nanosecond parts
/// (each below one second).
pub proof fn lemma_later_is_later_instant(a: Timestamp, b: Timestamp)
    requires
        a.nanos < 1_000_000_000,
        b.nanos < 1_000_000_000,
    ensures
        later(a, b) <==> instant_nanos(a) > instant_nanos(b),
{
    let sa = a.secs as int;
    let sb = b.secs as int;
    if sa > sb {
        assert(sa * 1_000_000_000 >= sb * 1_000_000_000 + 1_000_000_000) by (nonlinear_arith)
            requires
                sa > sb,
        ;
    } else if sa < sb {
        assert(sb * 1_000_000_000 >= sa * 1_000_000_000 + 1_000_000_000) by (nonlinear_arith)
            requires
                sa < sb,
        ;
    }
}

/// Being later is a strict total order on times: never of a time itself,
/// transitive, and of two different times exactly one is later than the
/// other; a time with more whole seconds is later whatever its nanoseconds.
pub proof fn lemma_later_strict_total_order(a: Timestamp, b: Timestamp, c: Timestamp)
    ensures
        !later(a, a),
        later(a, b) && later(b, c) ==> later(a, c),
        a != b ==> (later(a, b) <==> !later(b, a)),
        a.secs > b.secs ==> later(a, b),
        a.secs < b.secs ==> !later(a, b),
        a.secs == b.secs ==> (later(a, b) <==> a.nanos > b.nanos),
{
}

/// A file whose build product exists and which is not forced is built
/// again exactly when it is in the manifest, its current modification time
/// is known, and that time is a later instant than the one recorded for it.
pub proof fn lemma_dirty_when_modified_later(
    times: Map<Seq<Seq<char>>, Timestamp>,
    file: Seq<char>,
    current: Option<Timestamp>,
)
    requires
        current matches Some(c) ==> c.nanos < 1_000_000_000,
        times.contains_key(components(file)) ==> times[components(file)].nanos < 1_000_000_000,
    ensures
        modified_since(times, file, current) <==> (current matches Some(c) && times.contains_key(
            components(file),
        ) && instant_nanos(c) > instant_nanos(times[components(file)])),
{
    if let Some(c) = current {
        if times.contains_key(components(file)) {
            lemma_later_is_later_instant(c, times[components(file)]);
        }
    }
}

} // verus!
