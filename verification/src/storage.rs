//! The submission store: the contract both components depend on, and a
//! verified in-memory implementation of it.

use vstd::prelude::*;
use crate::types::{hashes_equal, BlockSubmission};

verus! {

/// Failures of the submission store.
///
/// Completing an already-completed record is an error rather than a silent
/// no-op — the documented choice for replayed confirmations, so a caller
/// can tell a fresh confirmation from a duplicate.
#[derive(Clone, Copy, Debug, PartialEq, Eq)]
pub enum Error {
    /// `insert` found an existing record with the same block hash.
    DuplicateEntry,
    /// `set_submission_completed` found no record with the given hash.
    NotFound,
    /// `set_submission_completed` found the record already completed.
    AlreadyCompleted,
}

impl Error {
    /// The description of this failure, for specifications.
    pub open spec fn describe_view(self) -> Seq<char> {
        match self {
            Error::DuplicateEntry => "duplicate submission"@,
            Error::NotFound => "submission not found"@,
            Error::AlreadyCompleted => "submission already completed"@,
        }
    }

    /// A human-readable description of the failure.
    pub fn describe(&self) -> (r: String)
        ensures
            r@ == self.describe_view(),
    {
        match self {
            Error::DuplicateEntry => "duplicate submission".to_owned(),
            Error::NotFound => "submission not found".to_owned(),
            Error::AlreadyCompleted => "submission already completed".to_owned(),
        }
    }
}

/// The first index among the records whose block carries the given hash.
pub open spec fn find_submission(subs: Seq<BlockSubmission>, hash: Seq<u8>) -> Option<int>
    decreases subs.len(),
{
    if subs.len() == 0 {
        None
    } else if subs[0].block.hash@ == hash {
        Some(0int)
    } else {
        match find_submission(subs.drop_first(), hash) {
            Some(i) => Some(i + 1),
            None => None,
        }
    }
}

/// What `find_submission` finds: the first matching index, or a proof
/// that no record matches.
pub proof fn lemma_find_submission(subs: Seq<BlockSubmission>, hash: Seq<u8>)
    ensures
        match find_submission(subs, hash) {
            Some(i) => 0 <= i < subs.len() && subs[i].block.hash@ == hash && (forall|j: int|
                0 <= j < i ==> subs[j].block.hash@ != hash),
            None => forall|j: int| 0 <= j < subs.len() ==> subs[j].block.hash@ != hash,
        },
    decreases subs.len(),
{
    if subs.len() > 0 && subs[0].block.hash@ != hash {
        let rest = subs.drop_first();
        lemma_find_submission(rest, hash);
        match find_submission(rest, hash) {
            Some(i) => {
                assert(rest[i] == subs[i + 1]);
                assert forall|j: int| 0 <= j < i + 1 implies subs[j].block.hash@ != hash by {
                    if j > 0 {
                        assert(rest[j - 1] == subs[j]);
                        assert(rest[j - 1].block.hash@ != hash);
                    }
                }
            },
            None => {
                assert forall|j: int| 0 <= j < subs.len() implies subs[j].block.hash@ != hash by {
                    if j > 0 {
                        assert(rest[j - 1] == subs[j]);
                        assert(rest[j - 1].block.hash@ != hash);
                    }
                }
            },
        }
    }
}

/// `find_submission` is pinned down by its characterization: a first
/// matching index is the found one, and no match at all means `None`.
pub proof fn lemma_find_submission_unique(subs: Seq<BlockSubmission>, hash: Seq<u8>, i: int)
    requires
        0 <= i < subs.len(),
        subs[i].block.hash@ == hash,
        forall|j: int| 0 <= j < i ==> subs[j].block.hash@ != hash,
    ensures
        find_submission(subs, hash) == Some(i),
{
    lemma_find_submission(subs, hash);
    match find_submission(subs, hash) {
        Some(k) => {
            if k < i {
                assert(subs[k].block.hash@ != hash);
            } else if i < k {
                assert(subs[i].block.hash@ != hash);
            }
        },
        None => {
            assert(subs[i].block.hash@ != hash);
        },
    }
}

/// The record with the greatest block height — the earliest inserted one
/// if several share that height — or `None` on an empty store.
pub open spec fn latest_of(subs: Seq<BlockSubmission>) -> Option<BlockSubmission>
    decreases subs.len(),
{
    if subs.len() == 0 {
        None
    } else {
        match latest_of(subs.drop_last()) {
            None => Some(subs.last()),
            Some(m) => if subs.last().block.height > m.block.height {
                Some(subs.last())
            } else {
                Some(m)
            },
        }
    }
}

/// The latest submission is a stored record, and no stored record sits
/// above it.
pub proof fn lemma_latest_is_max(subs: Seq<BlockSubmission>)
    requires
        subs.len() > 0,
    ensures
        latest_of(subs) is Some,
        exists|i: int| 0 <= i < subs.len() && subs[i] == latest_of(subs)->Some_0,
        forall|i: int|
            0 <= i < subs.len() ==> #[trigger] subs[i].block.height <= latest_of(
                subs,
            )->Some_0.block.height,
    decreases subs.len(),
{
    let last = subs.last();
    let prefix = subs.drop_last();
    if subs.len() == 1 {
        assert(latest_of(prefix) is None);
        assert(subs[0] == last);
    } else {
        lemma_latest_is_max(prefix);
        let pm = latest_of(prefix)->Some_0;
        let m = latest_of(subs)->Some_0;
        let wit = choose|i: int| 0 <= i < prefix.len() && prefix[i] == pm;
        if last.block.height > pm.block.height {
            assert(m == last);
            assert(subs[subs.len() - 1] == last);
        } else {
            assert(m == pm);
            assert(subs[wit] == pm);
        }
        assert forall|i: int| 0 <= i < subs.len() implies subs[i].block.height
            <= m.block.height by {
            if i < subs.len() - 1 {
                assert(prefix[i] == subs[i]);
                assert(prefix[i].block.height <= pm.block.height);
            } else {
                assert(subs[i] == last);
            }
        }
    }
}

/// Persistent records of checkpoint intents and outcomes. The store is
/// the single source of truth for what has already been checkpointed.
pub trait Storage {
    /// The stored records, in insertion order.
    spec fn subs(&self) -> Seq<BlockSubmission>;

    /// Persist a new record. Succeeds exactly when no record with the
    /// same block hash is present; the store is unchanged on failure.
    fn insert(&mut self, submission: BlockSubmission) -> (r: Result<(), Error>)
        ensures
            find_submission(old(self).subs(), submission.block.hash@) is None ==> r == Ok::<
                (),
                Error,
            >(()) && final(self).subs() == old(self).subs().push(submission),
            find_submission(old(self).subs(), submission.block.hash@) is Some ==> r == Err::<
                (),
                Error,
            >(Error::DuplicateEntry) && final(self).subs() == old(self).subs(),
    ;

    /// A consistent point-in-time read of the submission with the
    /// greatest block height.
    fn submission_w_latest_block(&self) -> (r: Result<Option<BlockSubmission>, Error>)
        ensures
            r == Ok::<Option<BlockSubmission>, Error>(latest_of(self.subs())),
    ;

    /// Atomically flip the record with the given hash to completed and
    /// return the updated record. Fails with `NotFound` when no record
    /// carries the hash, and with `AlreadyCompleted` when the record was
    /// completed before; the store is unchanged on failure.
    fn set_submission_completed(&mut self, hash: [u8; 32]) -> (r: Result<BlockSubmission, Error>)
        ensures
            match find_submission(old(self).subs(), hash@) {
                Some(i) => if !old(self).subs()[i].completed {
                    r == Ok::<BlockSubmission, Error>(
                        (BlockSubmission { completed: true, ..old(self).subs()[i] }),
                    ) && final(self).subs() == old(self).subs().update(
                        i,
                        (BlockSubmission { completed: true, ..old(self).subs()[i] }),
                    )
                } else {
                    r == Err::<BlockSubmission, Error>(Error::AlreadyCompleted)
                        && final(self).subs() == old(self).subs()
                },
                None => r == Err::<BlockSubmission, Error>(Error::NotFound) && final(self).subs()
                    == old(self).subs(),
            },
    ;
}

/// A verified in-memory submission store: the reference implementation of
/// the store contract, and the substitutable double for tests.
pub struct InMemoryStorage {
    submissions: Vec<BlockSubmission>,
}

impl InMemoryStorage {
    pub fn new() -> (r: InMemoryStorage)
        ensures
            r.subs() == Seq::<BlockSubmission>::empty(),
    {
        InMemoryStorage { submissions: Vec::new() }
    }

    /// The position of the first record carrying `hash`, if any.
    fn position_of(&self, hash: &[u8; 32]) -> (r: Option<usize>)
        ensures
            match r {
                Some(i) => Some(i as int) == find_submission(self.subs(), hash@),
                None => find_submission(self.subs(), hash@) is None,
            },
    {
        let n = self.submissions.len();
        let mut i: usize = 0;
        while i < n
            invariant
                n == self.submissions.len(),
                i <= n,
                forall|j: int| 0 <= j < i ==> self.submissions@[j].block.hash@ != hash@,
            decreases n - i,
        {
            if hashes_equal(&self.submissions[i].block.hash, hash) {
                proof {
                    lemma_find_submission_unique(self.submissions@, hash@, i as int);
                }
                return Some(i);
            }
            i += 1;
        }
        proof {
            lemma_find_submission(self.submissions@, hash@);
            if find_submission(self.submissions@, hash@) is Some {
                let k = find_submission(self.submissions@, hash@)->Some_0;
                assert(self.submissions@[k].block.hash@ != hash@);
            }
        }
        None
    }
}

impl Storage for InMemoryStorage {
    closed spec fn subs(&self) -> Seq<BlockSubmission> {
        self.submissions@
    }

    fn insert(&mut self, submission: BlockSubmission) -> (r: Result<(), Error>) {
        match self.position_of(&submission.block.hash) {
            Some(_) => Err(Error::DuplicateEntry),
            None => {
                self.submissions.push(submission);
                Ok(())
            },
        }
    }

    fn submission_w_latest_block(&self) -> (r: Result<Option<BlockSubmission>, Error>) {
        let n = self.submissions.len();
        if n == 0 {
            return Ok(None);
        }
        let mut best = self.submissions[0];
        let mut i: usize = 1;
        proof {
            assert(latest_of(Seq::<BlockSubmission>::empty()) is None);
            assert(self.submissions@.take(1).drop_last() =~= Seq::<BlockSubmission>::empty());
            assert(self.submissions@.take(1).last() == self.submissions@[0]);
        }
        while i < n
            invariant
                n == self.submissions.len(),
                1 <= i <= n,
                Some(best) == latest_of(self.submissions@.take(i as int)),
            decreases n - i,
        {
            let candidate = self.submissions[i];
            proof {
                assert(self.submissions@.take(i + 1).drop_last() =~= self.submissions@.take(
                    i as int,
                ));
                assert(self.submissions@.take(i + 1).last() == self.submissions@[i as int]);
            }
            if candidate.block.height > best.block.height {
                best = candidate;
            }
            i += 1;
        }
        proof {
            assert(self.submissions@.take(n as int) =~= self.submissions@);
        }
        Ok(Some(best))
    }

    fn set_submission_completed(&mut self, hash: [u8; 32]) -> (r: Result<BlockSubmission, Error>) {
        match self.position_of(&hash) {
            None => Err(Error::NotFound),
            Some(i) => {
                proof {
                    lemma_find_submission(self.submissions@, hash@);
                }
                let found = self.submissions[i];
                if found.completed {
                    Err(Error::AlreadyCompleted)
                } else {
                    let updated = BlockSubmission { completed: true, ..found };
                    self.submissions[i] = updated;
                    Ok(updated)
                }
            },
        }
    }
}

} // verus!
