//! Schema migration planning: an ordered list of idempotent steps keyed by
//! integer version, to be applied from the persisted version up to the
//! current one at startup. Executing the statements against the storage
//! engine is the caller's part.

use vstd::prelude::*;
use vstd::string::*;

verus! {

/// The schema version this build writes.
pub const SCHEMA_VERSION: u64 = 1;

/// One migration step: the statement to run and the version reached by it.
pub struct MigrationStep {
    pub to_version: u64,
    pub sql: String,
}

/// The steps still to apply at the persisted version: from the bare
/// version the single step that creates the links table; at the current
/// version, none — running the plan again is a no-op.
pub fn migration_steps(current_version: u64) -> (r: Vec<MigrationStep>)
    ensures
        current_version == 0 ==> r@.len() == 1 && r@[0].to_version == SCHEMA_VERSION
            && r@[0].sql@ == (
        "CREATE TABLE links (short_url TEXT PRIMARY KEY, target_url TEXT, comment TEXT DEFAULT '', active BOOLEAN DEFAULT 1)"
        )@,
        current_version >= 1 ==> r@.len() == 0,
{
    let mut r: Vec<MigrationStep> = Vec::new();
    if current_version == 0 {
        r.push(
            MigrationStep {
                to_version: 1,
                sql: String::from_str(
                    "CREATE TABLE links (short_url TEXT PRIMARY KEY, target_url TEXT, comment TEXT DEFAULT '', active BOOLEAN DEFAULT 1)",
                ),
            },
        );
    }
    r
}

/// The version the store records once the plan has run: never below the
/// schema this build writes, and untouched by a second run.
pub fn version_after_migrations(current_version: u64) -> (v: u64)
    ensures
        current_version == 0 ==> v == SCHEMA_VERSION,
        current_version >= 1 ==> v == current_version,
{
    if current_version == 0 {
        SCHEMA_VERSION
    } else {
        current_version
    }
}

} // verus!
