//! The submitter registry: the known submitters, each with a display name and
//! the instant of their last successful submission.
//!
//! The registry exclusively owns its records for the process lifetime; they
//! are read through `lookup` and mutated only through `commit`. Its model is a
//! map from submitter id (as a character sequence) to the submitter's fields.

use crate::clock::LocalInstant;
use vstd::prelude::*;

verus! {

/// One known submitter.
#[derive(Debug, Clone)]
pub struct Submitter {
    /// Name shown on the form and printed as the message origin.
    pub display_name: String,
    /// When this submitter last submitted successfully; starts at the
    /// far-past sentinel.
    pub last_submission: LocalInstant,
}

/// The mathematical image of one submitter record.
pub struct SubmitterModel {
    pub display_name: Seq<char>,
    pub last_submission: LocalInstant,
}

impl Submitter {
    /// The record's mathematical image.
    pub open spec fn model(self) -> SubmitterModel {
        SubmitterModel { display_name: self.display_name@, last_submission: self.last_submission }
    }
}

struct Entry {
    id: String,
    submitter: Submitter,
}

/// The registry of known submitters, keyed by their opaque id.
pub struct Registry {
    entries: Vec<Entry>,
}

/// The map image of a run of entries: later entries win, as in repeated
/// insertion.
spec fn map_of(entries: Seq<Entry>) -> Map<Seq<char>, SubmitterModel>
    decreases entries.len(),
{
    if entries.len() == 0 {
        Map::empty()
    } else {
        map_of(entries.drop_last()).insert(
            entries.last().id@,
            entries.last().submitter.model(),
        )
    }
}

/// No two entries share an id.
spec fn unique_ids(entries: Seq<Entry>) -> bool {
    forall|i: int, j: int|
        0 <= i < j < entries.len() ==> #[trigger] entries[i].id@ != #[trigger] entries[j].id@
}

proof fn lemma_map_of_domain(entries: Seq<Entry>, k: Seq<char>)
    ensures
        map_of(entries).contains_key(k) <==> exists|i: int|
            0 <= i < entries.len() && #[trigger] entries[i].id@ == k,
    decreases entries.len(),
{
    if entries.len() > 0 {
        lemma_map_of_domain(entries.drop_last(), k);
        if entries.last().id@ == k {
            assert(entries[entries.len() - 1].id@ == k);
        } else if map_of(entries).contains_key(k) {
            let i = choose|i: int| 0 <= i < entries.drop_last().len() && #[trigger] entries.drop_last()[i].id@ == k;
            assert(entries[i].id@ == k);
        } else if exists|i: int| 0 <= i < entries.len() && #[trigger] entries[i].id@ == k {
            let i = choose|i: int| 0 <= i < entries.len() && #[trigger] entries[i].id@ == k;
            assert(entries.drop_last()[i].id@ == k);
        }
    }
}

proof fn lemma_map_of_index(entries: Seq<Entry>, i: int)
    requires
        unique_ids(entries),
        0 <= i < entries.len(),
    ensures
        map_of(entries).contains_key(entries[i].id@),
        map_of(entries)[entries[i].id@] == entries[i].submitter.model(),
    decreases entries.len(),
{
    lemma_map_of_domain(entries, entries[i].id@);
    if i < entries.len() - 1 {
        assert(entries[i].id@ != entries.last().id@);
        assert(entries.drop_last()[i] == entries[i]);
        lemma_map_of_index(entries.drop_last(), i);
    }
}

proof fn lemma_map_of_update(entries: Seq<Entry>, i: int, e: Entry)
    requires
        unique_ids(entries),
        0 <= i < entries.len(),
        e.id@ == entries[i].id@,
    ensures
        unique_ids(entries.update(i, e)),
        map_of(entries.update(i, e)) =~= map_of(entries).insert(e.id@, e.submitter.model()),
    decreases entries.len(),
{
    let updated = entries.update(i, e);
    assert forall|p: int, q: int| 0 <= p < q < updated.len() implies #[trigger] updated[p].id@
        != #[trigger] updated[q].id@ by {
        assert(entries[p].id@ != entries[q].id@);
    }
    if i == entries.len() - 1 {
        assert(updated.drop_last() =~= entries.drop_last());
        assert(updated.last() == e);
    } else {
        assert(updated.drop_last() =~= entries.drop_last().update(i, e));
        assert(updated.last() == entries.last());
        lemma_map_of_update(entries.drop_last(), i, e);
        assert(entries.last().id@ != e.id@);
    }
}

impl View for Registry {
    type V = Map<Seq<char>, SubmitterModel>;

    /// The registry's mathematical image: id to submitter record.
    closed spec fn view(&self) -> Map<Seq<char>, SubmitterModel> {
        map_of(self.entries@)
    }
}

impl Registry {
    /// Ids are unique, so the map image loses nothing.
    pub closed spec fn wf(self) -> bool {
        unique_ids(self.entries@)
    }

    /// An empty registry.
    pub fn new() -> (r: Registry)
        ensures
            r.wf(),
            r@ == Map::<Seq<char>, SubmitterModel>::empty(),
    {
        Registry { entries: Vec::new() }
    }

    fn position_of(&self, id: &String) -> (r: Option<usize>)
        requires
            self.wf(),
        ensures
            match r {
                Some(i) => i < self.entries@.len() && self.entries@[i as int].id@ == id@
                    && self@.contains_key(id@),
                None => !self@.contains_key(id@),
            },
    {
        let n = self.entries.len();
        let mut i: usize = 0;
        while i < n
            invariant
                n == self.entries@.len(),
                i <= n,
                forall|j: int| 0 <= j < i ==> #[trigger] self.entries@[j].id@ != id@,
                self.wf(),
            decreases n - i,
        {
            if self.entries[i].id == *id {
                proof {
                    lemma_map_of_index(self.entries@, i as int);
                }
                return Some(i);
            }
            i += 1;
        }
        proof {
            lemma_map_of_domain(self.entries@, id@);
        }
        None
    }

    /// Looks a submitter up by id; `None` when the id is unknown.
    pub fn lookup(&self, id: &String) -> (r: Option<&Submitter>)
        requires
            self.wf(),
        ensures
            match r {
                Some(s) => self@.contains_key(id@) && s.model() == self@[id@],
                None => !self@.contains_key(id@),
            },
    {
        match self.position_of(id) {
            Some(i) => {
                proof {
                    lemma_map_of_index(self.entries@, i as int);
                }
                Some(&self.entries[i].submitter)
            },
            None => None,
        }
    }

    /// Adds a submitter, or replaces the record if the id is already known.
    /// Used only while loading the registry at startup.
    pub fn register(&mut self, id: String, submitter: Submitter)
        requires
            old(self).wf(),
        ensures
            final(self).wf(),
            final(self)@ =~= old(self)@.insert(id@, submitter.model()),
    {
        match self.position_of(&id) {
            Some(i) => {
                proof {
                    lemma_map_of_update(
                        self.entries@,
                        i as int,
                        Entry { id, submitter },
                    );
                }
                self.entries[i] = Entry { id, submitter };
            },
            None => {
                proof {
                    lemma_map_of_domain(self.entries@, id@);
                    let pushed = self.entries@.push(Entry { id, submitter });
                    assert(pushed.drop_last() =~= self.entries@);
                    assert forall|p: int, q: int| 0 <= p < q < pushed.len() implies #[trigger] pushed[p].id@ != #[trigger] pushed[q].id@ by {
                        if q == pushed.len() - 1 {
                            assert(self.entries@[p].id@ != id@);
                        } else {
                            assert(self.entries@[p].id@ != self.entries@[q].id@);
                        }
                    }
                }
                self.entries.push(Entry { id, submitter });
            },
        }
    }

    /// Overwrites `last_submission` for an existing id; a no-op when the id
    /// is absent (callers look the id up first).
    pub fn commit(&mut self, id: &String, instant: LocalInstant)
        requires
            old(self).wf(),
        ensures
            final(self).wf(),
            old(self)@.contains_key(id@) ==> final(self)@ =~= old(self)@.insert(
                id@,
                SubmitterModel {
                    display_name: old(self)@[id@].display_name,
                    last_submission: instant,
                },
            ),
            !old(self)@.contains_key(id@) ==> final(self)@ == old(self)@,
    {
        match self.position_of(id) {
            Some(i) => {
                proof {
                    lemma_map_of_index(self.entries@, i as int);
                }
                let name = self.entries[i].submitter.display_name.clone();
                let entry = Entry {
                    id: self.entries[i].id.clone(),
                    submitter: Submitter { display_name: name, last_submission: instant },
                };
                proof {
                    lemma_map_of_update(self.entries@, i as int, entry);
                }
                self.entries[i] = entry;
            },
            None => {},
        }
    }

    /// How many submitters are known.
    pub fn len(&self) -> (n: usize)
        requires
            self.wf(),
        ensures
            n == self@.dom().len(),
    {
        proof {
            lemma_map_of_len(self.entries@);
        }
        self.entries.len()
    }
}

proof fn lemma_map_of_len(entries: Seq<Entry>)
    requires
        unique_ids(entries),
    ensures
        map_of(entries).dom().finite(),
        map_of(entries).dom().len() == entries.len(),
    decreases entries.len(),
{
    if entries.len() > 0 {
        lemma_map_of_len(entries.drop_last());
        lemma_map_of_domain(entries.drop_last(), entries.last().id@);
        assert(!map_of(entries.drop_last()).contains_key(entries.last().id@));
    }
}

} // verus!
