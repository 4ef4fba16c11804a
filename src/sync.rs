use crate::coordination::{CoordinationState, Flags};
use crate::package::{has_unique_keys, keys_unique, InstallState, Package};
use crate::reconcile::{
    as_count, prior_of, reconcile_loaded, update_count_of, Reconciled, StorageError,
};
use vstd::prelude::*;

verus! {

/// Failure of a fetch from the build index.
#[derive(Clone, Copy, Debug, PartialEq, Eq, Structural)]
pub enum FetchError {
    /// The index could not be reached (DNS, timeout, refused connection).
    Network,
    /// The index answered with a listing that does not parse, or whose
    /// packages repeat a reconciliation key.
    Parse,
}

/// Why a fetch did not produce a database to persist.
#[derive(Clone, Copy, Debug, PartialEq, Eq, Structural)]
pub enum SyncError {
    Fetch(FetchError),
    Storage(StorageError),
}

/// What a completed fetch yields: the update count and the database to
/// persist, or the error that leaves the persisted database as it was.
pub open spec fn fetch_outcome(
    fetched: Result<Vec<Package>, FetchError>,
    loaded: Result<Vec<Package>, StorageError>,
) -> Result<(Option<nat>, Seq<Package>), SyncError> {
    match fetched {
        Err(e) => Err(SyncError::Fetch(e)),
        Ok(list) => if !keys_unique(list@) {
            Err(SyncError::Fetch(FetchError::Parse))
        } else if loaded == Err::<Vec<Package>, StorageError>(StorageError::IoFailure) {
            Err(SyncError::Storage(StorageError::IoFailure))
        } else {
            Ok((update_count_of(prior_of(loaded), list@), list@))
        },
    }
}

/// The flags once a fetch has completed: the fetch has ended, and the index
/// counts as reachable if it answered, unreachable if it could not be reached.
pub open spec fn flags_after_fetch(f: Flags, fetched: Result<Vec<Package>, FetchError>) -> Flags {
    Flags {
        fetching: false,
        connectivity_ok: match fetched {
            Ok(_) => true,
            Err(FetchError::Network) => false,
            Err(FetchError::Parse) => f.connectivity_ok,
        },
        ..f
    }
}

/// Completes a fetch: ends it in `state`, records connectivity, and reconciles
/// a well-formed listing against the loaded prior database. Only an `Ok`
/// result carries a database to persist.
pub fn complete_fetch(
    state: &mut CoordinationState,
    fetched: Result<Vec<Package>, FetchError>,
    loaded: Result<Vec<Package>, StorageError>,
) -> (r: Result<Reconciled, SyncError>)
    ensures
        final(state)@ == flags_after_fetch(old(state)@, fetched),
        match fetch_outcome(fetched, loaded) {
            Ok((count, db)) => r matches Ok(rec) && rec.update_count == as_count(count)
                && rec.database@ == db,
            Err(e) => r == Err::<Reconciled, SyncError>(e),
        },
{
    state.end_fetch();
    match fetched {
        Err(e) => {
            if e == FetchError::Network {
                state.set_connectivity(false);
            }
            Err(SyncError::Fetch(e))
        },
        Ok(list) => {
            state.set_connectivity(true);
            if !has_unique_keys(&list) {
                Err(SyncError::Fetch(FetchError::Parse))
            } else {
                match reconcile_loaded(loaded, list) {
                    Ok(rec) => Ok(rec),
                    Err(e) => Err(SyncError::Storage(e)),
                }
            }
        },
    }
}

/// An unreachable index yields nothing to persist, so the database on disk
/// stays as it was, and marks connectivity as lost.
pub proof fn lemma_network_error_keeps_database(
    f: Flags,
    loaded: Result<Vec<Package>, StorageError>,
)
    ensures
        fetch_outcome(Err(FetchError::Network), loaded) == Err::<
            (Option<nat>, Seq<Package>),
            SyncError,
        >(SyncError::Fetch(FetchError::Network)),
        !flags_after_fetch(f, Err(FetchError::Network)).connectivity_ok,
        !flags_after_fetch(f, Err(FetchError::Network)).fetching,
{
}

/// Starts installing `p` if it is not installed and no install runs; says
/// whether it did.
pub fn begin_install(state: &mut CoordinationState, p: &mut Package) -> (r: bool)
    ensures
        r == (old(p).install_state == InstallState::NotInstalled && !old(state)@.installing),
        final(state)@ == (if r { Flags { installing: true, ..old(state)@ } } else { old(state)@ }),
        *final(p) == (if r { Package { install_state: InstallState::InstallInProgress, ..*old(p) } } else { *old(p) }),
{
    if p.install_state != InstallState::NotInstalled {
        return false;
    }
    if !state.try_begin_install() {
        return false;
    }
    p.install_state = InstallState::InstallInProgress;
    true
}

/// Ends the running install of `p` with the installer's verdict.
pub fn finish_install(state: &mut CoordinationState, p: &mut Package, succeeded: bool)
    ensures
        final(state)@ == (Flags { installing: false, ..old(state)@ }),
        *final(p) == (Package {
            install_state: if succeeded { InstallState::Installed } else { InstallState::NotInstalled },
            ..*old(p)
        }),
{
    state.end_install();
    p.install_state = if succeeded { InstallState::Installed } else { InstallState::NotInstalled };
}

} // verus!
