use crate::package::{contains_key, has_key, key_of, keys_unique, Package};
use vstd::prelude::*;

verus! {

/// Failure of the channel database on disk.
#[derive(Clone, Copy, Debug, PartialEq, Eq, Structural)]
pub enum StorageError {
    /// The file exists but does not decode.
    Corrupt,
    /// Reading or writing the file failed.
    IoFailure,
}

/// Result of reconciling a fresh listing against the persisted database.
#[derive(Debug)]
pub struct Reconciled {
    /// Packages of the listing whose key the prior database lacked;
    /// `None` when there was no prior database to compare with.
    pub update_count: Option<usize>,
    /// The database to persist: the listing itself, in its order.
    pub database: Vec<Package>,
}

/// Number of packages of `fetched` whose key `prior` lacks.
pub open spec fn count_new(prior: Seq<Package>, fetched: Seq<Package>) -> nat
    decreases fetched.len(),
{
    if fetched.len() == 0 {
        0
    } else {
        count_new(prior, fetched.drop_last()) + if has_key(prior, key_of(fetched.last())) {
            0nat
        } else {
            1nat
        }
    }
}

/// The update count that reconciling `fetched` against `prior` reports:
/// unknown on the first run (nothing persisted), else the number of new keys.
pub open spec fn update_count_of(prior: Seq<Package>, fetched: Seq<Package>) -> Option<nat> {
    if prior.len() == 0 {
        None
    } else {
        Some(count_new(prior, fetched))
    }
}

/// The prior database that a load result stands for: a corrupt file counts
/// as an absent, hence empty, database.
pub open spec fn prior_of(loaded: Result<Vec<Package>, StorageError>) -> Seq<Package> {
    match loaded {
        Ok(db) => db@,
        Err(_) => Seq::empty(),
    }
}

/// Maps a counted number into the count that a `Reconciled` carries.
pub open spec fn as_count(c: Option<nat>) -> Option<usize> {
    match c {
        Some(n) => Some(n as usize),
        None => None,
    }
}

proof fn lemma_count_new_bounded(prior: Seq<Package>, fetched: Seq<Package>)
    ensures
        count_new(prior, fetched) <= fetched.len(),
    decreases fetched.len(),
{
    if fetched.len() > 0 {
        lemma_count_new_bounded(prior, fetched.drop_last());
    }
}

/// Counts the packages of `fetched` whose key `prior` lacks.
pub fn count_new_packages(prior: &Vec<Package>, fetched: &Vec<Package>) -> (r: usize)
    ensures
        r == count_new(prior@, fetched@),
{
    let mut count: usize = 0;
    let mut i: usize = 0;
    while i < fetched.len()
        invariant
            i <= fetched@.len(),
            count == count_new(prior@, fetched@.take(i as int)),
            count <= i,
        decreases fetched@.len() - i,
    {
        proof {
            assert(fetched@.take(i + 1).drop_last() =~= fetched@.take(i as int));
            assert(fetched@.take(i + 1).last() == fetched@[i as int]);
        }
        if !contains_key(prior, &fetched[i]) {
            count = count + 1;
        }
        i = i + 1;
    }
    proof {
        assert(fetched@.take(i as int) =~= fetched@);
    }
    count
}

/// Reconciles `fetched` against the prior database: the listing replaces the
/// database wholesale, and the update count says how many of its packages are new.
pub fn reconcile(prior: &Vec<Package>, fetched: Vec<Package>) -> (r: Reconciled)
    ensures
        r.database@ == fetched@,
        r.update_count == as_count(update_count_of(prior@, fetched@)),
{
    let update_count = if prior.len() == 0 {
        None
    } else {
        Some(count_new_packages(prior, &fetched))
    };
    Reconciled { update_count, database: fetched }
}

/// Reconciles `fetched` against the result of loading the prior database.
/// A corrupt database counts as absent; a failed read is reported.
pub fn reconcile_loaded(loaded: Result<Vec<Package>, StorageError>, fetched: Vec<Package>) -> (r:
    Result<Reconciled, StorageError>)
    ensures
        loaded == Err::<Vec<Package>, StorageError>(StorageError::IoFailure) <==> r is Err,
        r is Err ==> r == Err::<Reconciled, StorageError>(StorageError::IoFailure),
        r matches Ok(rec) ==> rec.database@ == fetched@ && rec.update_count == as_count(
            update_count_of(prior_of(loaded), fetched@),
        ),
{
    match loaded {
        Ok(prior) => Ok(reconcile(&prior, fetched)),
        Err(StorageError::Corrupt) => Ok(reconcile(&Vec::new(), fetched)),
        Err(StorageError::IoFailure) => Err(StorageError::IoFailure),
    }
}

/// With nothing persisted, reconciling any listing reports an unknown update
/// count (the persisted result being the listing itself, see `reconcile`).
pub proof fn lemma_first_run_unknown(fetched: Seq<Package>)
    ensures
        update_count_of(Seq::empty(), fetched) == None::<nat>,
{
}

pub(crate) proof fn lemma_count_new_all_known(prior: Seq<Package>, fetched: Seq<Package>)
    requires
        forall|i: int| 0 <= i < fetched.len() ==> has_key(prior, key_of(#[trigger] fetched[i])),
    ensures
        count_new(prior, fetched) == 0,
    decreases fetched.len(),
{
    if fetched.len() > 0 {
        let init = fetched.drop_last();
        assert forall|i: int| 0 <= i < init.len() implies has_key(prior, key_of(#[trigger] init[i])) by {
            assert(init[i] == fetched[i]);
        }
        lemma_count_new_all_known(prior, init);
        assert(has_key(prior, key_of(fetched[fetched.len() - 1])));
    }
}

/// Reconciling a non-empty listing against the database that the same listing
/// produced finds no new package.
pub proof fn lemma_reconcile_idempotent(fetched: Seq<Package>)
    requires
        fetched.len() > 0,
    ensures
        update_count_of(fetched, fetched) == Some(0nat),
{
    assert forall|i: int| 0 <= i < fetched.len() implies has_key(fetched, key_of(#[trigger] fetched[i])) by {
    }
    lemma_count_new_all_known(fetched, fetched);
}

/// A listing of three distinct keys, against a database of two distinct keys
/// that the listing both holds, has exactly one new package.
pub proof fn lemma_one_new_of_three(prior: Seq<Package>, fetched: Seq<Package>)
    requires
        fetched.len() == 3,
        keys_unique(fetched),
        prior.len() == 2,
        keys_unique(prior),
        has_key(fetched, key_of(prior[0])),
        has_key(fetched, key_of(prior[1])),
    ensures
        update_count_of(prior, fetched) == Some(1nat),
{
    let x = choose|i: int| 0 <= i < fetched.len() && key_of(fetched[i]) == key_of(prior[0]);
    let y = choose|i: int| 0 <= i < fetched.len() && key_of(fetched[i]) == key_of(prior[1]);
    assert(key_of(prior[0]) != key_of(prior[1]));
    assert(x != y);
    let z = 3 - x - y;
    assert(0 <= z < 3 && z != x && z != y);
    assert forall|k: int| 0 <= k < 3 implies #[trigger] has_key(prior, key_of(fetched[k])) == (k
        != z) by {
        if k == z {
            if has_key(prior, key_of(fetched[k])) {
                let j = choose|j: int| 0 <= j < prior.len() && key_of(prior[j]) == key_of(fetched[k]);
                assert(j == 0 || j == 1);
            }
        } else if k == x {
            assert(key_of(prior[0]) == key_of(fetched[k]));
        } else {
            assert(key_of(prior[1]) == key_of(fetched[k]));
        }
    }
    let s2 = fetched.drop_last();
    let s1 = s2.drop_last();
    let s0 = s1.drop_last();
    assert(s0.len() == 0);
    assert(s1.last() == fetched[0]);
    assert(s2.last() == fetched[1]);
    assert(fetched.last() == fetched[2]);
    assert(count_new(prior, s0) == 0);
    assert(has_key(prior, key_of(fetched[0])) == (0 != z));
    assert(has_key(prior, key_of(fetched[1])) == (1 != z));
    assert(has_key(prior, key_of(fetched[2])) == (2 != z));
    let c1: nat = if z == 0 { 1 } else { 0 };
    let c2: nat = if z == 1 { 1 } else { 0 };
    let c3: nat = if z == 2 { 1 } else { 0 };
    assert(count_new(prior, s1) == c1);
    assert(count_new(prior, s2) == c1 + c2);
    assert(count_new(prior, fetched) == c1 + c2 + c3);
}

/// A corrupt database reconciles as an absent one does: the first-run branch.
pub proof fn lemma_corrupt_is_absent(fetched: Seq<Package>)
    ensures
        prior_of(Err(StorageError::Corrupt)) == Seq::<Package>::empty(),
        update_count_of(prior_of(Err(StorageError::Corrupt)), fetched) == None::<nat>,
{
}

} // verus!
