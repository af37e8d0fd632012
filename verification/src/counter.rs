//! How many times each command has been run during this session.

use vstd::prelude::*;

verus! {

/// The number of times the command `name` ran, per the counts in `counts`.
pub open spec fn uses_of(counts: Map<Seq<char>, u64>, name: Seq<char>) -> int {
    if counts.contains_key(name) {
        counts[name] as int
    } else {
        0
    }
}

/// The entries hold exactly the counts of `model`, each command name at
/// most once.
pub open spec fn entries_match(entries: Seq<(String, u64)>, model: Map<Seq<char>, u64>) -> bool {
    &&& forall|i: int|
        0 <= i < entries.len() ==> #[trigger] model.contains_key(entries[i].0@) && model[entries[i].0@]
            == entries[i].1
    &&& forall|k: Seq<char>|
        #[trigger] model.contains_key(k) ==> exists|i: int| 0 <= i < entries.len() && entries[i].0@ == k
    &&& forall|i: int, j: int|
        0 <= i < entries.len() && 0 <= j < entries.len() && i != j ==> entries[i].0@ != entries[j].0@
}

/// Per-command run counts; a command that never ran has no entry.
pub struct CommandCounter {
    entries: Vec<(String, u64)>,
    model: Ghost<Map<Seq<char>, u64>>,
}

impl View for CommandCounter {
    type V = Map<Seq<char>, u64>;

    closed spec fn view(&self) -> Map<Seq<char>, u64> {
        self.model@
    }
}

/// The position of the entry of `key` in `entries`, if it has one.
fn find_entry(entries: &Vec<(String, u64)>, key: &String) -> (pos: Option<usize>)
    ensures
        match pos {
            Some(i) => i < entries@.len() && entries@[i as int].0@ == key@,
            None => forall|j: int| 0 <= j < entries@.len() ==> entries@[j].0@ != key@,
        },
{
    let n = entries.len();
    let mut i: usize = 0;
    while i < n
        invariant
            i <= n,
            n == entries@.len(),
            forall|j: int| 0 <= j < i ==> entries@[j].0@ != key@,
        decreases n - i,
    {
        if entries[i].0 == *key {
            return Some(i);
        }
        i += 1;
    }
    None
}

impl CommandCounter {
    /// Each command name has at most one entry, and the entries hold
    /// exactly the counts of the model.
    #[verifier::type_invariant]
    spec fn wf(self) -> bool {
        entries_match(self.entries@, self.model@)
    }

    /// A counter in which no command has run yet.
    pub fn new() -> (c: Self)
        ensures
            c@ == Map::<Seq<char>, u64>::empty(),
    {
        CommandCounter { entries: Vec::new(), model: Ghost(Map::empty()) }
    }

    /// How many times the command `name` has run (zero if never).
    pub fn usage(&self, name: &str) -> (count: u64)
        ensures
            count == uses_of(self@, name@),
    {
        proof {
            use_type_invariant(self);
        }
        let key = name.to_owned();
        match find_entry(&self.entries, &key) {
            Some(i) => self.entries[i].1,
            None => {
                proof {
                    if self.model@.contains_key(key@) {
                        let w = choose|j: int|
                            0 <= j < self.entries@.len() && self.entries@[j].0@ == key@;
                        assert(self.entries@[w].0@ == key@);
                    }
                }
                0
            },
        }
    }

    /// Counts one more run of the command `name`.
    pub fn record(&mut self, name: &str)
        requires
            uses_of(old(self)@, name@) < u64::MAX,
        ensures
            final(self)@ == old(self)@.insert(name@, (uses_of(old(self)@, name@) + 1) as u64),
    {
        proof {
            use_type_invariant(&*self);
        }
        let mut taken = CommandCounter::new();
        std::mem::swap(self, &mut taken);
        proof {
            use_type_invariant(&taken);
        }
        let CommandCounter { entries, model } = taken;
        let mut entries = entries;
        let ghost old_model = model@;
        let ghost old_entries = entries@;
        let key = name.to_owned();
        let ghost new_model = old_model.insert(name@, (uses_of(old_model, name@) + 1) as u64);
        match find_entry(&entries, &key) {
            Some(i) => {
                let count = entries[i].1;
                entries[i].1 = count + 1;
                proof {
                    assert forall|j: int| 0 <= j < entries@.len() implies #[trigger] new_model.contains_key(
                        entries@[j].0@,
                    ) && new_model[entries@[j].0@] == entries@[j].1 by {
                        if j != i {
                            assert(old_entries[j].0@ != old_entries[i as int].0@);
                        }
                    }
                    assert forall|k: Seq<char>| #[trigger] new_model.contains_key(k) implies exists|j: int|
                        0 <= j < entries@.len() && entries@[j].0@ == k by {
                        if k == name@ {
                            assert(entries@[i as int].0@ == k);
                        } else {
                            let w = choose|j: int| 0 <= j < old_entries.len() && old_entries[j].0@ == k;
                            assert(entries@[w].0@ == k);
                        }
                    }
                }
            },
            None => {
                proof {
                    if old_model.contains_key(name@) {
                        let w = choose|j: int|
                            0 <= j < old_entries.len() && old_entries[j].0@ == name@;
                        assert(old_entries[w].0@ == name@);
                    }
                }
                entries.push((key, 1));
                proof {
                    let last = old_entries.len() as int;
                    assert forall|j: int| 0 <= j < entries@.len() implies #[trigger] new_model.contains_key(
                        entries@[j].0@,
                    ) && new_model[entries@[j].0@] == entries@[j].1 by {
                        if j < last {
                            assert(entries@[j] == old_entries[j]);
                        }
                    }
                    assert forall|k: Seq<char>| #[trigger] new_model.contains_key(k) implies exists|j: int|
                        0 <= j < entries@.len() && entries@[j].0@ == k by {
                        if k == name@ {
                            assert(entries@[last].0@ == k);
                        } else {
                            let w = choose|j: int| 0 <= j < old_entries.len() && old_entries[j].0@ == k;
                            assert(entries@[w].0@ == k);
                        }
                    }
                    assert forall|a: int, b: int|
                        0 <= a < entries@.len() && 0 <= b < entries@.len() && a != b
                        implies entries@[a].0@ != entries@[b].0@ by {
                        if a < last && b < last {
                            assert(entries@[a] == old_entries[a]);
                            assert(entries@[b] == old_entries[b]);
                        } else if a < last {
                            assert(old_entries[a].0@ != name@);
                        } else {
                            assert(old_entries[b].0@ != name@);
                        }
                    }
                }
            },
        }
        *self = CommandCounter { entries, model: Ghost(new_model) };
    }
}

/// Recording a run of `name` adds exactly one to its count and leaves the
/// count of every other command as it was.
pub proof fn lemma_record_counts_one_run(
    counts: Map<Seq<char>, u64>,
    name: Seq<char>,
    other: Seq<char>,
)
    requires
        uses_of(counts, name) < u64::MAX,
        other != name,
    ensures
        uses_of(counts.insert(name, (uses_of(counts, name) + 1) as u64), name) == uses_of(
            counts,
            name,
        ) + 1,
        uses_of(counts.insert(name, (uses_of(counts, name) + 1) as u64), other) == uses_of(
            counts,
            other,
        ),
{
}

/// The counts after the commands `names` ran, in order, from no runs.
pub open spec fn counts_after(names: Seq<Seq<char>>) -> Map<Seq<char>, u64>
    decreases names.len(),
{
    if names.len() == 0 {
        Map::empty()
    } else {
        let before = counts_after(names.drop_last());
        before.insert(names.last(), (uses_of(before, names.last()) + 1) as u64)
    }
}

/// Starting from no runs, after the commands `names` ran, each command's
/// count is the number of times it occurs in `names`.
pub proof fn lemma_counts_after_runs(names: Seq<Seq<char>>, name: Seq<char>)
    requires
        names.len() < u64::MAX,
    ensures
        uses_of(counts_after(names), name) == names.to_multiset().count(name),
        names.to_multiset().count(name) <= names.len(),
    decreases names.len(),
{
    broadcast use vstd::seq_lib::group_to_multiset_ensures;

    if names.len() > 0 {
        let init = names.drop_last();
        let last = names.last();
        lemma_counts_after_runs(init, name);
        lemma_counts_after_runs(init, last);
        assert(init.push(last) =~= names);
    }
}

} // verus!
