//! Tables keyed by job.

use vstd::prelude::*;
use vstd::string::*;

verus! {

/// At most one value for each job.
#[derive(Debug)]
pub struct JobTable<V> {
    entries: Vec<(String, V)>,
}

/// Whether position `i` of `entries` holds the value of `job`.
pub open spec fn entry_of<V>(entries: Seq<(String, V)>, i: int, job: Seq<char>) -> bool {
    0 <= i < entries.len() && entries[i].0@ == job
}

/// The map that a list of entries stands for.
pub open spec fn entries_map<V>(entries: Seq<(String, V)>) -> Map<Seq<char>, V> {
    Map::new(
        |job: Seq<char>| exists|i: int| entry_of(entries, i, job),
        |job: Seq<char>| entries[choose|i: int| entry_of(entries, i, job)].1,
    )
}

/// No job has two entries.
pub open spec fn jobs_differ<V>(entries: Seq<(String, V)>) -> bool {
    forall|i: int, j: int|
        0 <= i < j < entries.len() ==> (#[trigger] entries[i]).0@ != (#[trigger] entries[j]).0@
}

impl<V> View for JobTable<V> {
    type V = Map<Seq<char>, V>;

    closed spec fn view(&self) -> Map<Seq<char>, V> {
        entries_map(self.entries@)
    }
}

impl<V> JobTable<V> {
    #[verifier::type_invariant]
    spec fn well_formed(self) -> bool {
        jobs_differ(self.entries@)
    }

    /// A table without entries.
    pub fn new() -> (res: JobTable<V>)
        ensures
            res@ == Map::<Seq<char>, V>::empty(),
    {
        let res = JobTable { entries: Vec::new() };
        assert(res@ =~= Map::empty());
        res
    }

    /// Where the entry of `job` stands, or the number of entries if it has none.
    fn position(&self, job: &str) -> (at: usize)
        ensures
            at <= self.entries@.len(),
            at < self.entries@.len() ==> entry_of(self.entries@, at as int, job@),
            at < self.entries@.len() <==> self@.contains_key(job@),
    {
        let name = job.to_string();
        let mut at: usize = 0;
        while at < self.entries.len()
            invariant
                name@ == job@,
                at <= self.entries@.len(),
                forall|i: int| 0 <= i < at ==> !#[trigger] entry_of(self.entries@, i, job@),
            decreases self.entries@.len() - at,
        {
            if self.entries[at].0 == name {
                assert(entry_of(self.entries@, at as int, job@));
                return at;
            }
            at = at + 1;
        }
        at
    }

    /// The value of `job`, if it has one.
    pub fn get(&self, job: &str) -> (res: Option<&V>)
        ensures
            match res {
                Some(value) => self@.contains_key(job@) && *value == self@[job@],
                None => !self@.contains_key(job@),
            },
    {
        proof {
            use_type_invariant(self);
        }
        let at: usize = self.position(job);
        if at < self.entries.len() {
            proof {
                lemma_entry_value(self.entries@, at as int);
            }
            Some(&self.entries[at].1)
        } else {
            None
        }
    }

    /// Gives `job` the value `value`, in place of the one it may have had.
    pub fn insert(&mut self, job: String, value: V)
        ensures
            final(self)@ == old(self)@.insert(job@, value),
    {
        proof {
            use_type_invariant(&*self);
        }
        let at: usize = self.position(job.as_str());
        let ghost before = self.entries@;
        let mut entries: Vec<(String, V)> = Vec::new();
        std::mem::swap(&mut entries, &mut self.entries);
        let ghost name = job@;
        if at < entries.len() {
            entries.set(at, (job, value));
        } else {
            entries.push((job, value));
        }
        proof {
            lemma_insert(before, entries@, at as int, name, value);
        }
        self.entries = entries;
    }

    /// Takes the value of `job` out of the table.
    pub fn remove(&mut self, job: &str) -> (res: Option<V>)
        ensures
            final(self)@ == old(self)@.remove(job@),
            match res {
                Some(value) => old(self)@.contains_key(job@) && value == old(self)@[job@],
                None => !old(self)@.contains_key(job@),
            },
    {
        proof {
            use_type_invariant(&*self);
        }
        let at: usize = self.position(job);
        if at < self.entries.len() {
            let ghost before = self.entries@;
            let mut entries: Vec<(String, V)> = Vec::new();
            std::mem::swap(&mut entries, &mut self.entries);
            let (_, value) = entries.remove(at);
            proof {
                lemma_entry_value(before, at as int);
                lemma_remove(before, at as int);
            }
            self.entries = entries;
            Some(value)
        } else {
            assert(self@ =~= self@.remove(job@));
            None
        }
    }

    /// The jobs of the table, in the order in which it is walked.
    pub closed spec fn jobs(self) -> Seq<Seq<char>> {
        self.entries@.map_values(|entry: (String, V)| entry.0@)
    }

    /// The values of the table, one for each job.
    pub fn values(&self) -> (res: Vec<&V>)
        ensures
            self.jobs().no_duplicates(),
            forall|job: Seq<char>| self.jobs().contains(job) <==> self@.contains_key(job),
            res@.len() == self.jobs().len(),
            forall|i: int| 0 <= i < res@.len() ==> *(#[trigger] res@[i]) == self@[self.jobs()[i]],
    {
        proof {
            use_type_invariant(self);
        }
        let mut res: Vec<&V> = Vec::new();
        let mut at: usize = 0;
        while at < self.entries.len()
            invariant
                at <= self.entries@.len(),
                res@.len() == at,
                forall|i: int| 0 <= i < at ==> *(#[trigger] res@[i]) == self.entries@[i].1,
            decreases self.entries@.len() - at,
        {
            res.push(&self.entries[at].1);
            at = at + 1;
        }
        proof {
            let jobs = self.jobs();
            assert forall|i: int, j: int|
                0 <= i < jobs.len() && 0 <= j < jobs.len() && i != j implies jobs[i] != jobs[j] by {
                if i < j {
                    assert(self.entries@[i].0@ != self.entries@[j].0@);
                } else {
                    assert(self.entries@[j].0@ != self.entries@[i].0@);
                }
            }
            assert forall|job: Seq<char>|
                jobs.contains(job) <==> self@.contains_key(job) by {
                if jobs.contains(job) {
                    let i = choose|i: int| 0 <= i < jobs.len() && jobs[i] == job;
                    assert(entry_of(self.entries@, i, job));
                }
                if self@.contains_key(job) {
                    let i = choose|i: int| entry_of(self.entries@, i, job);
                    assert(jobs[i] == job);
                }
            }
            assert forall|i: int| 0 <= i < res@.len() implies *(#[trigger] res@[i])
                == self@[self.jobs()[i]] by {
                lemma_entry_value(self.entries@, i);
            }
        }
        res
    }
}

/// The map gives the job of an entry the value of that entry.
proof fn lemma_entry_value<V>(entries: Seq<(String, V)>, at: int)
    requires
        jobs_differ(entries),
        0 <= at < entries.len(),
    ensures
        entries_map(entries).contains_key(entries[at].0@),
        entries_map(entries)[entries[at].0@] == entries[at].1,
{
    let job = entries[at].0@;
    assert(entry_of(entries, at, job));
    let i = choose|i: int| entry_of(entries, i, job);
    assert(i == at);
}

/// Setting the entry of a job, or appending one, inserts into the map.
proof fn lemma_insert<V>(
    before: Seq<(String, V)>,
    after: Seq<(String, V)>,
    at: int,
    job: Seq<char>,
    value: V,
)
    requires
        jobs_differ(before),
        0 <= at <= before.len(),
        at < before.len() ==> before[at].0@ == job,
        at == before.len() ==> !entries_map(before).contains_key(job),
        after.len() == (if at < before.len() { before.len() } else { before.len() + 1 }),
        after[at].0@ == job,
        after[at].1 == value,
        forall|i: int| 0 <= i < before.len() && i != at ==> #[trigger] after[i] == before[i],
    ensures
        jobs_differ(after),
        entries_map(after) == entries_map(before).insert(job, value),
{
    assert forall|i: int, j: int| 0 <= i < j < after.len() implies (#[trigger] after[i]).0@ != (
    #[trigger] after[j]).0@ by {
        if i != at && j != at {
            assert(before[i].0@ != before[j].0@);
        } else if at < before.len() {
            assert(before[i].0@ != before[j].0@);
        } else {
            assert(j == at);
            if before[i].0@ == job {
                assert(entry_of(before, i, job));
            }
        }
    }
    assert forall|k: Seq<char>|
        entries_map(after).contains_key(k) <==> #[trigger] entries_map(before).insert(
            job,
            value,
        ).contains_key(k) by {
        if entries_map(after).contains_key(k) {
            let i = choose|i: int| entry_of(after, i, k);
            if i != at {
                assert(entry_of(before, i, k));
            }
        }
        if entries_map(before).contains_key(k) && k != job {
            let i = choose|i: int| entry_of(before, i, k);
            assert(entry_of(after, i, k));
        }
        assert(entry_of(after, at, job));
    }
    assert forall|k: Seq<char>| entries_map(after).contains_key(k) implies #[trigger] entries_map(
        after,
    )[k] == entries_map(before).insert(job, value)[k] by {
        let i = choose|i: int| entry_of(after, i, k);
        lemma_entry_value(after, i);
        if i != at {
            lemma_entry_value(before, i);
            if k == job {
                assert(after[i].0@ != after[at].0@);
            }
        }
    }
    assert(entries_map(after) =~= entries_map(before).insert(job, value));
}

/// Removing an entry removes its job from the map.
proof fn lemma_remove<V>(before: Seq<(String, V)>, at: int)
    requires
        jobs_differ(before),
        0 <= at < before.len(),
    ensures
        jobs_differ(before.remove(at)),
        entries_map(before.remove(at)) == entries_map(before).remove(before[at].0@),
{
    let after = before.remove(at);
    let job = before[at].0@;
    assert forall|i: int, j: int| 0 <= i < j < after.len() implies (#[trigger] after[i]).0@ != (
    #[trigger] after[j]).0@ by {
        let i0 = if i < at { i } else { i + 1 };
        let j0 = if j < at { j } else { j + 1 };
        assert(before[i0].0@ != before[j0].0@);
    }
    assert forall|k: Seq<char>|
        entries_map(after).contains_key(k) <==> #[trigger] entries_map(before).remove(
            job,
        ).contains_key(k) by {
        if entries_map(after).contains_key(k) {
            let i = choose|i: int| entry_of(after, i, k);
            let i0 = if i < at { i } else { i + 1 };
            assert(entry_of(before, i0, k));
            assert(before[i0].0@ != before[at].0@);
        }
        if entries_map(before).remove(job).contains_key(k) {
            let i0 = choose|i: int| entry_of(before, i, k);
            let i = if i0 < at { i0 } else { i0 - 1 };
            assert(entry_of(after, i, k));
        }
    }
    assert forall|k: Seq<char>| entries_map(after).contains_key(k) implies #[trigger] entries_map(
        after,
    )[k] == entries_map(before).remove(job)[k] by {
        let i = choose|i: int| entry_of(after, i, k);
        let i0 = if i < at { i } else { i + 1 };
        lemma_entry_value(after, i);
        lemma_entry_value(before, i0);
    }
    assert(entries_map(after) =~= entries_map(before).remove(job));
}

} // verus!
