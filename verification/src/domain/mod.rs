pub mod album;
pub mod artist;
pub mod audiofile;
pub mod track;
pub mod uploaded;

use vstd::prelude::*;
use crate::repository::RepositoryError;

verus! {

/// The 128-bit value of a UUID, as every entity of the library is identified.
pub type Id = u128;

/// A text that names neither of the two known uploaders.
#[derive(Debug)]
pub struct UploadedParseError(pub String);

/// A field of a domain entity that its constructor refuses.
#[derive(Debug, Clone, Copy, PartialEq, Eq, Structural)]
pub enum ValidationError {
    NameIsEmptyString,
    DurationIsZero,
    FileSizeIsZero,
}

/// What happened to one entity of a batch that was saved one row at a time.
#[derive(Debug)]
pub struct BatchSaveOutcome {
    pub batch_index: usize,
    pub result: Result<Id, RepositoryError>,
}

/// The id that a saved outcome carries, or nothing for a failed one.
pub open spec fn saved_id(o: BatchSaveOutcome) -> Option<Id> {
    match o.result {
        Ok(id) => Some(id),
        Err(_) => None,
    }
}

/// Whether the outcome is a failure.
pub open spec fn is_failed(o: BatchSaveOutcome) -> bool {
    o.result is Err
}

/// The outcomes of a batch save, in the order of the batch.
#[derive(Debug)]
pub struct BatchSaveReport {
    pub outcomes: Vec<BatchSaveOutcome>,
}

impl BatchSaveReport {
    /// A report without outcomes.
    pub fn new() -> (res: Self)
        ensures
            res.outcomes@.len() == 0,
    {
        BatchSaveReport { outcomes: Vec::new() }
    }

    /// Records what happened to the entity at `batch_index` of the batch.
    pub fn record(&mut self, batch_index: usize, result: Result<Id, RepositoryError>)
        ensures
            final(self).outcomes@ == old(self).outcomes@.push(BatchSaveOutcome { batch_index, result }),
    {
        self.outcomes.push(BatchSaveOutcome { batch_index, result });
    }

    /// The ids of the entities that were saved, in batch order.
    pub fn successful_ids(&self) -> (res: Vec<Id>)
        ensures
            res@ == self.outcomes@.filter_map(|o: BatchSaveOutcome| saved_id(o)),
    {
        let mut res: Vec<Id> = Vec::new();
        let n = self.outcomes.len();
        for i in 0..n
            invariant
                n == self.outcomes@.len(),
                res@ == self.outcomes@.take(i as int).filter_map(|o: BatchSaveOutcome| saved_id(o)),
        {
            let o = &self.outcomes[i];
            match &o.result {
                Ok(id) => res.push(*id),
                Err(_) => {},
            }
            assert(self.outcomes@.take(i + 1).drop_last() == self.outcomes@.take(i as int));
        }
        assert(self.outcomes@.take(n as int) == self.outcomes@);
        res
    }

    /// The outcomes that are failures, in batch order.
    pub fn failed(&self) -> (res: Vec<&BatchSaveOutcome>)
        ensures
            res@.map_values(|o: &BatchSaveOutcome| *o) == self.outcomes@.filter(|o: BatchSaveOutcome| is_failed(o)),
    {
        let ghost pred = |o: BatchSaveOutcome| is_failed(o);
        let mut res: Vec<&BatchSaveOutcome> = Vec::new();
        let n = self.outcomes.len();
        for i in 0..n
            invariant
                n == self.outcomes@.len(),
                pred == (|o: BatchSaveOutcome| is_failed(o)),
                res@.map_values(|o: &BatchSaveOutcome| *o) == self.outcomes@.take(i as int).filter(pred),
        {
            let o = &self.outcomes[i];
            let ghost before = res@;
            if o.result.is_err() {
                res.push(o);
                assert(res@.map_values(|o: &BatchSaveOutcome| *o) =~= before.map_values(|o: &BatchSaveOutcome| *o).push(*o));
            }
            proof {
                reveal(Seq::filter);
                assert(self.outcomes@.take(i + 1).drop_last() == self.outcomes@.take(i as int));
            }
        }
        assert(self.outcomes@.take(n as int) == self.outcomes@);
        res
    }
}

/// Every outcome of a batch save is either a saved id or a failure, never both:
/// the saved ids and the failures together are as many as the outcomes.
pub proof fn lemma_every_outcome_saved_or_failed(outcomes: Seq<BatchSaveOutcome>)
    ensures
        outcomes.filter_map(|o: BatchSaveOutcome| saved_id(o)).len()
            + outcomes.filter(|o: BatchSaveOutcome| is_failed(o)).len() == outcomes.len(),
    decreases outcomes.len(),
{
    if outcomes.len() > 0 {
        let rest = outcomes.drop_last();
        lemma_every_outcome_saved_or_failed(rest);
        assert(outcomes == rest.push(outcomes.last()));
        rest.lemma_filter_push(outcomes.last(), |o: BatchSaveOutcome| is_failed(o));
    }
}

/// The ids that a batch delete removed and those it could not remove, with the reason.
#[derive(Debug)]
pub struct BatchDeleteReport {
    pub deleted_ids: Vec<Id>,
    pub failed: Vec<(Id, RepositoryError)>,
}

impl BatchDeleteReport {
    /// A report with nothing deleted and nothing failed.
    pub fn new() -> (res: Self)
        ensures
            res.deleted_ids@.len() == 0,
            res.failed@.len() == 0,
    {
        BatchDeleteReport { deleted_ids: Vec::new(), failed: Vec::new() }
    }
}

} // verus!
