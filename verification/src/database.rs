//! The schema versions of the local database and the migrations between them.
//!
//! Schema updates are applied by migrations, chosen by the database's
//! `user_version`. Every data version must leave the database in a valid state.

use vstd::prelude::*;

verus! {

/// The current version of the database.  Update this to perform a migration
pub const CURRENT_DATA_VERSION: i32 = 2;

/// Why a migration failed.
#[derive(Debug, Clone, PartialEq, Eq)]
pub enum MigrationError {
    /// The data version (first) is not handled; the current data version is second.
    MigrationNumberDoesNotExist(i32, i32),
    CommitFailed(i32),
    TransactionFailed(i32, String),
}

/// The migrations that bring a database at `user_version` to the current
/// version, in the order they are applied.
pub fn pending_migrations(user_version: i32) -> (res: Vec<i32>)
    ensures
        res@.len() == if user_version < CURRENT_DATA_VERSION { CURRENT_DATA_VERSION - user_version } else { 0 },
        forall|i: int| 0 <= i < res@.len() ==> #[trigger] res@[i] == user_version + i,
        res@.len() > 0 ==> res@.last() + 1 == CURRENT_DATA_VERSION,
{
    let mut res: Vec<i32> = Vec::new();
    let mut v = user_version;
    while v < CURRENT_DATA_VERSION
        invariant
            user_version <= v,
            v <= CURRENT_DATA_VERSION || v == user_version,
            res@.len() == v - user_version,
            forall|i: int| 0 <= i < res@.len() ==> #[trigger] res@[i] == user_version + i,
        decreases CURRENT_DATA_VERSION - v,
    {
        res.push(v);
        v += 1;
    }
    res
}

/// The script of a migration: migrations `0` and `1` have one; any other
/// number is an error that names the current data version.
pub fn migration_script(migration_number: i32) -> (res: Result<usize, MigrationError>)
    ensures
        0 <= migration_number < CURRENT_DATA_VERSION ==> (res matches Ok(k) && k == migration_number),
        !(0 <= migration_number < CURRENT_DATA_VERSION) ==> (res matches Err(
            MigrationError::MigrationNumberDoesNotExist(n, c),
        ) && n == migration_number && c == CURRENT_DATA_VERSION),
{
    match migration_number {
        0 => Ok(0),
        1 => Ok(1),
        _ => Err(MigrationError::MigrationNumberDoesNotExist(migration_number, CURRENT_DATA_VERSION)),
    }
}


/// The data version that a migration records once its script has run: the
/// next one. A migration without a script is refused before anything runs.
pub fn version_after_migration(migration_number: i32) -> (res: Result<i32, MigrationError>)
    ensures
        0 <= migration_number < CURRENT_DATA_VERSION ==> (res matches Ok(v) && v == migration_number + 1),
        !(0 <= migration_number < CURRENT_DATA_VERSION) ==> (res matches Err(
            MigrationError::MigrationNumberDoesNotExist(n, c),
        ) && n == migration_number && c == CURRENT_DATA_VERSION),
{
    match migration_script(migration_number) {
        Ok(_) => Ok(migration_number + 1),
        Err(e) => Err(e),
    }
}

} // verus!
