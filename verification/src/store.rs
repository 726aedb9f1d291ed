//! The keyed store of issue records: a mapping from a non-empty id to the
//! features of the issue, queried for the records most similar to a query.
//!
//! The two ways into the store are not equally strict. `add_record` takes a
//! record only if some field of it holds a text that is not empty, and
//! answers with an error otherwise. `preload` passes over a record only if
//! its id is empty or none of its fields was reported, and says nothing;
//! it keeps a record whose fields are reported with empty texts.
//!
//! The store is an ordinary owned value. Writers take it by `&mut`, readers
//! by `&`, so one writer excludes every reader and readers share.

use vstd::hash_map::StringHashMap;
use vstd::prelude::*;
use crate::error::Error;
use crate::feature::{IssueFeatures, IssueFeaturesRecord};
use crate::search::{
    find_similar_records_in_parallel, is_issue_answer, SimilarIssueFeaturesRecord,
};

verus! {

/// The number of matches that a query returns when it names none.
pub const DEFAULT_TOP_N: u32 = 5;

/// The requested number of matches, or the default where none is named.
pub open spec fn requested_top_n(top_n: Option<u32>) -> nat {
    match top_n {
        Some(n) => n as nat,
        None => DEFAULT_TOP_N as nat,
    }
}

/// The mapping that a sequence of records loads: every loadable record is
/// entered under its id, a later one replacing an earlier one of the same
/// id; records with an empty id or without any field are passed over.
pub open spec fn loaded(records: Seq<IssueFeaturesRecord>) -> Map<Seq<char>, IssueFeatures>
    decreases records.len(),
{
    if records.len() == 0 {
        Map::empty()
    } else if records.last().is_loadable() {
        loaded(records.drop_last()).insert(records.last().issue_id@, records.last().features)
    } else {
        loaded(records.drop_last())
    }
}

/// Loading enters loadable records only: every id that is loaded is not
/// empty, and the features under it report at least one field.
pub proof fn lemma_loaded_is_loadable(records: Seq<IssueFeaturesRecord>, id: Seq<char>)
    requires
        loaded(records).contains_key(id),
    ensures
        id.len() > 0,
        loaded(records)[id]@.has_any(),
    decreases records.len(),
{
    if records.len() > 0 {
        if !(records.last().is_loadable() && records.last().issue_id@ == id) {
            lemma_loaded_is_loadable(records.drop_last(), id);
        }
    }
}

/// Loading passes over nothing that is loadable: a loadable record that no
/// later loadable record of the same id follows is held under its id.
pub proof fn lemma_loaded_keeps_last(records: Seq<IssueFeaturesRecord>, at: int)
    requires
        0 <= at < records.len(),
        records[at].is_loadable(),
        forall|j: int|
            at < j < records.len() && (#[trigger] records[j]).is_loadable() ==> records[j].issue_id@
                != records[at].issue_id@,
    ensures
        loaded(records).contains_key(records[at].issue_id@),
        loaded(records)[records[at].issue_id@] == records[at].features,
    decreases records.len(),
{
    if at < records.len() - 1 {
        let front = records.drop_last();
        assert(front[at] == records[at]);
        assert forall|j: int| at < j < front.len() && (#[trigger] front[j]).is_loadable() implies front[j].issue_id@
            != front[at].issue_id@ by {
            assert(front[j] == records[j]);
        }
        lemma_loaded_keeps_last(front, at);
    }
}

/// Loading invents nothing: an id that no loadable record carries is not
/// loaded.
pub proof fn lemma_loaded_has_source(records: Seq<IssueFeaturesRecord>, id: Seq<char>)
    requires
        loaded(records).contains_key(id),
    ensures
        exists|at: int|
            0 <= at < records.len() && (#[trigger] records[at]).is_loadable() && records[at].issue_id@
                == id,
    decreases records.len(),
{
    if records.len() > 0 {
        if records.last().is_loadable() && records.last().issue_id@ == id {
            assert(records[records.len() - 1].is_loadable());
        } else {
            lemma_loaded_has_source(records.drop_last(), id);
            let at = choose|at: int|
                0 <= at < records.drop_last().len() && (#[trigger] records.drop_last()[at]).is_loadable()
                    && records.drop_last()[at].issue_id@ == id;
            assert(records[at] == records.drop_last()[at]);
        }
    }
}

/// Whether `candidates` are the entries of `entries`, each once: every
/// candidate is loadable and is held under its id, no id occurs twice, and
/// every entry is among the candidates.
pub open spec fn are_entries_of(
    candidates: Seq<IssueFeaturesRecord>,
    entries: Map<Seq<char>, IssueFeatures>,
) -> bool {
    &&& forall|i: int|
        0 <= i < candidates.len() ==> {
            &&& (#[trigger] candidates[i]).is_loadable()
            &&& entries.contains_key(candidates[i].issue_id@)
            &&& entries[candidates[i].issue_id@] == candidates[i].features
        }
    &&& forall|i: int, j: int|
        0 <= i < j < candidates.len() ==> (#[trigger] candidates[i]).issue_id@ != (
        #[trigger] candidates[j]).issue_id@
    &&& forall|id: Seq<char>| #[trigger]
        entries.contains_key(id) ==> exists|i: int|
            0 <= i < candidates.len() && (#[trigger] candidates[i]).issue_id@ == id
}

/// Whether `positions` tells for each id where its record stands among
/// `records`, and every record is loadable.
spec fn is_indexed(records: Seq<IssueFeaturesRecord>, positions: Map<Seq<char>, usize>) -> bool {
    &&& forall|i: int| 0 <= i < records.len() ==> (#[trigger] records[i]).is_loadable()
    &&& forall|i: int|
        0 <= i < records.len() ==> positions.contains_key((#[trigger] records[i]).issue_id@)
            && positions[records[i].issue_id@] == i
    &&& forall|id: Seq<char>| #[trigger]
        positions.contains_key(id) ==> positions[id] < records.len() && records[positions[id] as int].issue_id@
            == id
}

/// The features that indexed records hold under each id.
spec fn entries_of(records: Seq<IssueFeaturesRecord>, positions: Map<Seq<char>, usize>) -> Map<
    Seq<char>,
    IssueFeatures,
> {
    Map::new(
        |id: Seq<char>| positions.contains_key(id),
        |id: Seq<char>| records[positions[id] as int].features,
    )
}

/// Enters a loadable record under its id, in place of the entry that the
/// id had, if any.
fn upsert(
    records: &mut Vec<IssueFeaturesRecord>,
    positions: &mut StringHashMap<usize>,
    record: IssueFeaturesRecord,
)
    requires
        is_indexed(old(records)@, old(positions)@),
        record.is_loadable(),
    ensures
        is_indexed(final(records)@, final(positions)@),
        entries_of(final(records)@, final(positions)@) == entries_of(
            old(records)@,
            old(positions)@,
        ).insert(record.issue_id@, record.features),
{
    let found: Option<usize> = match positions.get(record.issue_id.as_str()) {
        Some(position) => Some(*position),
        None => None,
    };
    let ghost id = record.issue_id@;
    let ghost features = record.features;
    match found {
        Some(position) => {
            records.set(position, record);
        },
        None => {
            let position: usize = records.len();
            positions.insert(record.issue_id.clone(), position);
            records.push(record);
        },
    }
    assert(entries_of(records@, positions@) =~= entries_of(old(records)@, old(positions)@).insert(
        id,
        features,
    ));
}

/// A store of issue records, each held under its id.
///
/// The records stand in a vector, which a query walks from end to end; a
/// hash map from each id to the position of its record finds one record
/// without walking.
pub struct IssueFeatureStore {
    records: Vec<IssueFeaturesRecord>,
    positions: StringHashMap<usize>,
}

impl View for IssueFeatureStore {
    type V = Map<Seq<char>, IssueFeatures>;

    /// The features held under each id.
    closed spec fn view(&self) -> Map<Seq<char>, IssueFeatures> {
        entries_of(self.records@, self.positions@)
    }
}

impl IssueFeatureStore {
    /// The invariant of the store: every record it holds is loadable, and
    /// `positions` tells for each id where its record stands.
    #[verifier::type_invariant]
    spec fn well_formed(&self) -> bool {
        is_indexed(self.records@, self.positions@)
    }

    /// The records of the store in the order in which a query looks at
    /// them. The order carries no meaning.
    pub closed spec fn candidates(&self) -> Seq<IssueFeaturesRecord> {
        self.records@
    }

    /// Creates an empty store.
    pub fn new() -> (store: Self)
        ensures
            store@ == Map::<Seq<char>, IssueFeatures>::empty(),
    {
        let store = IssueFeatureStore { records: Vec::new(), positions: StringHashMap::new() };
        assert(store@ =~= Map::<Seq<char>, IssueFeatures>::empty());
        store
    }

    /// Replaces the whole content of the store by the loadable records
    /// among `records`. A record with an empty id or without any field is
    /// left out silently; of two records with one id the later stays.
    pub fn preload(&mut self, records: Vec<IssueFeaturesRecord>)
        ensures
            final(self)@ == loaded(records@),
    {
        let ghost all = records@;
        let mut rest = records;
        let mut queue: Vec<IssueFeaturesRecord> = Vec::new();
        // The records are taken from the end, so they are put back in order first.
        while rest.len() > 0
            invariant
                queue@.len() + rest@.len() == all.len(),
                forall|i: int| 0 <= i < rest@.len() ==> rest@[i] == all[i],
                forall|i: int|
                    0 <= i < queue@.len() ==> #[trigger] queue@[i] == all[all.len() - 1 - i],
            decreases rest@.len(),
        {
            let record = rest.pop().unwrap();
            queue.push(record);
        }
        let mut kept: Vec<IssueFeaturesRecord> = Vec::new();
        let mut positions: StringHashMap<usize> = StringHashMap::new();
        let ghost done: int = 0;
        assert(entries_of(kept@, positions@) =~= loaded(all.take(0)));
        while queue.len() > 0
            invariant
                is_indexed(kept@, positions@),
                0 <= done <= all.len(),
                queue@.len() + done == all.len(),
                forall|i: int|
                    0 <= i < queue@.len() ==> #[trigger] queue@[i] == all[all.len() - 1 - i],
                entries_of(kept@, positions@) == loaded(all.take(done)),
            decreases queue@.len(),
        {
            let record = queue.pop().unwrap();
            proof {
                assert(record == all[done]);
                assert(all.take(done + 1).drop_last() =~= all.take(done));
                assert(all.take(done + 1).last() == all[done]);
            }
            if !record.issue_id.as_str().is_empty() && record.features.has_any() {
                upsert(&mut kept, &mut positions, record);
            }
            proof {
                done = done + 1;
            }
        }
        proof {
            assert(all.take(done) =~= all);
        }
        *self = IssueFeatureStore { records: kept, positions };
    }

    /// Enters a record under its id, in place of the entry that the id
    /// had, if any. A record with an empty id, or else one of which no
    /// field holds a text that is not empty, is refused and the store
    /// stays as it was.
    pub fn add_record(&mut self, record: IssueFeaturesRecord) -> (done: Result<(), Error>)
        ensures
            record.issue_id@.len() == 0 ==> done == Err::<(), Error>(Error::EmptyId),
            record.issue_id@.len() > 0 && record.features@.char_mass() == 0 ==> done == Err::<
                (),
                Error,
            >(Error::EmptyFeatures),
            record.issue_id@.len() > 0 && record.features@.char_mass() > 0 ==> done is Ok,
            done is Ok ==> final(self)@ == old(self)@.insert(record.issue_id@, record.features),
            done is Err ==> final(self)@ == old(self)@ && done->Err_0.is_validation(),
    {
        if record.issue_id.as_str().is_empty() {
            return Err(Error::EmptyId);
        } else if !record.features.has_text() {
            return Err(Error::EmptyFeatures);
        }
        let mut taken = IssueFeatureStore::new();
        core::mem::swap(self, &mut taken);
        proof {
            use_type_invariant(&taken);
        }
        let IssueFeatureStore { records: mut records, positions: mut positions } = taken;
        upsert(&mut records, &mut positions, record);
        *self = IssueFeatureStore { records, positions };
        Ok(())
    }

    /// Looks up the record held under `issue_id`. What is found has a
    /// field that was reported.
    pub fn get_record(&self, issue_id: String) -> (found: Option<IssueFeaturesRecord>)
        ensures
            found is Some <==> self@.contains_key(issue_id@),
            found is Some ==> found->0 == (IssueFeaturesRecord {
                issue_id: issue_id,
                features: self@[issue_id@],
            }),
            found is Some ==> found->0.is_loadable(),
    {
        proof {
            use_type_invariant(self);
        }
        match self.positions.get(issue_id.as_str()) {
            Some(position) => {
                assert(self.records@[*position as int].is_loadable());
                let features = self.records[*position].features.clone();
                Some(IssueFeaturesRecord { issue_id, features })
            },
            None => None,
        }
    }

    /// Removes the record held under `issue_id`, if there is one, and
    /// tells whether there was.
    pub fn remove_record(&mut self, issue_id: String) -> (existed: bool)
        ensures
            existed == old(self)@.contains_key(issue_id@),
            final(self)@ == old(self)@.remove(issue_id@),
    {
        proof {
            use_type_invariant(&*self);
        }
        let found: Option<usize> = match self.positions.get(issue_id.as_str()) {
            Some(position) => Some(*position),
            None => None,
        };
        match found {
            Some(position) => {
                let mut taken = IssueFeatureStore::new();
                core::mem::swap(self, &mut taken);
                let IssueFeatureStore { records: mut records, positions: mut positions } = taken;
                let ghost before = entries_of(records@, positions@);
                let last: usize = records.len() - 1;
                if position != last {
                    let moved_id = records[last].issue_id.clone();
                    positions.insert(moved_id, position);
                }
                positions.remove(issue_id.as_str());
                let _ = records.swap_remove(position);
                assert(entries_of(records@, positions@) =~= before.remove(issue_id@));
                *self = IssueFeatureStore { records, positions };
                true
            },
            None => {
                assert(self@ =~= old(self)@.remove(issue_id@));
                false
            },
        }
    }

    /// The records of the store, as a query looks at them: the entries of
    /// the store, each once.
    pub fn records(&self) -> (records: &Vec<IssueFeaturesRecord>)
        ensures
            records@ == self.candidates(),
            are_entries_of(self.candidates(), self@),
    {
        proof {
            use_type_invariant(self);
            assert forall|id: Seq<char>| #[trigger] self@.contains_key(id) implies exists|i: int|
                0 <= i < self.candidates().len() && (#[trigger] self.candidates()[i]).issue_id@
                    == id by {
                let at = self.positions@[id] as int;
                assert(self.candidates()[at].issue_id@ == id);
            }
        }
        &self.records
    }

    /// Finds the records of the store most similar to `features`: the
    /// `top_n` best matches among the entries of the store, best first, or
    /// the five best where `top_n` is not given. A query without any
    /// character is refused.
    pub fn find_similar_records(&self, features: IssueFeatures, top_n: Option<u32>) -> (found:
        Result<Vec<SimilarIssueFeaturesRecord>, Error>)
        ensures
            found is Err <==> features@.char_mass() == 0,
            found is Err ==> found == Err::<Vec<SimilarIssueFeaturesRecord>, Error>(
                Error::InvalidQuery,
            ),
            found is Ok ==> is_issue_answer(
                features@,
                self.candidates(),
                requested_top_n(top_n),
                found->Ok_0@,
            ),
            are_entries_of(self.candidates(), self@),
    {
        let top_n: u32 = match top_n {
            Some(n) => n,
            None => DEFAULT_TOP_N,
        };
        find_similar_records_in_parallel(&features, self.records(), top_n)
    }
}

/// A query that was submitted and is yet to run. It holds the query and
/// the number of matches wanted; the store is read when the query runs,
/// so it sees what was written until then.
pub struct AsyncFindSimilarRecords {
    features: IssueFeatures,
    top_n: u32,
}

impl AsyncFindSimilarRecords {
    /// The query that was submitted.
    pub closed spec fn features(&self) -> IssueFeatures {
        self.features
    }

    /// The number of matches wanted.
    pub closed spec fn top_n(&self) -> u32 {
        self.top_n
    }

    /// Submits a query for the `top_n` best matches, or for the five best
    /// where `top_n` is not given.
    pub fn new(features: IssueFeatures, top_n: Option<u32>) -> (task: Self)
        ensures
            task.features() == features,
            task.top_n() == requested_top_n(top_n),
    {
        let top_n: u32 = match top_n {
            Some(n) => n,
            None => DEFAULT_TOP_N,
        };
        AsyncFindSimilarRecords { features, top_n }
    }

    /// Runs the query on the store as it is now. The task stays as it
    /// was.
    pub fn compute(&mut self, store: &IssueFeatureStore) -> (found: Result<
        Vec<SimilarIssueFeaturesRecord>,
        Error,
    >)
        ensures
            *final(self) == *old(self),
            found is Err <==> old(self).features()@.char_mass() == 0,
            found is Err ==> found == Err::<Vec<SimilarIssueFeaturesRecord>, Error>(
                Error::InvalidQuery,
            ),
            found is Ok ==> is_issue_answer(
                old(self).features()@,
                store.candidates(),
                old(self).top_n() as nat,
                found->Ok_0@,
            ),
            are_entries_of(store.candidates(), store@),
    {
        find_similar_records_in_parallel(&self.features, store.records(), self.top_n)
    }
}

} // verus!
