//! Taking over migration tracking from an older store.
//!
//! An older version of the store recorded its applied schema migrations in a
//! `_sqlx_migrations` table; the present one keeps the schema version in the
//! database's `user_version`. Before migrating, the store probes the old
//! tracking step by step and, where the old tracking is the only one, copies
//! its version over so that no migration runs twice.
use vstd::prelude::*;

verus! {

/// What the last probe found.
#[derive(Clone, Copy, Debug, PartialEq, Eq)]
pub enum LegacyProbe {
    /// Nothing has been probed yet.
    Start,
    /// Whether the legacy migrations table exists.
    LegacyTable { exists: bool },
    /// The database's present `user_version`.
    UserVersion { version: i32 },
    /// The highest successful legacy migration version (0 when none).
    LegacyVersion { version: i32 },
}

/// What to do next.
#[derive(Clone, Copy, Debug, PartialEq, Eq)]
pub enum LegacyStep {
    /// Look for the legacy migrations table.
    CheckLegacyTable,
    /// Read the database's `user_version`.
    ReadUserVersion,
    /// Read the highest successful legacy migration version.
    ReadLegacyVersion,
    /// Set `user_version` to this version, and stop.
    SetUserVersion(i32),
    /// Stop without changing anything.
    Finish,
}

/// The step that follows a probe: without the legacy table, or when the
/// database already tracks a version, nothing changes; otherwise a positive
/// legacy version becomes the database's version.
pub open spec fn legacy_step_spec(probe: LegacyProbe) -> LegacyStep {
    match probe {
        LegacyProbe::Start => LegacyStep::CheckLegacyTable,
        LegacyProbe::LegacyTable { exists } => if exists {
            LegacyStep::ReadUserVersion
        } else {
            LegacyStep::Finish
        },
        LegacyProbe::UserVersion { version } => if version > 0 {
            LegacyStep::Finish
        } else {
            LegacyStep::ReadLegacyVersion
        },
        LegacyProbe::LegacyVersion { version } => if version > 0 {
            LegacyStep::SetUserVersion(version)
        } else {
            LegacyStep::Finish
        },
    }
}

/// Decides the next step of the take-over from what the last probe found.
pub fn next_legacy_step(probe: LegacyProbe) -> (step: LegacyStep)
    ensures
        step == legacy_step_spec(probe),
{
    match probe {
        LegacyProbe::Start => LegacyStep::CheckLegacyTable,
        LegacyProbe::LegacyTable { exists } => if exists {
            LegacyStep::ReadUserVersion
        } else {
            LegacyStep::Finish
        },
        LegacyProbe::UserVersion { version } => if version > 0 {
            LegacyStep::Finish
        } else {
            LegacyStep::ReadLegacyVersion
        },
        LegacyProbe::LegacyVersion { version } => if version > 0 {
            LegacyStep::SetUserVersion(version)
        } else {
            LegacyStep::Finish
        },
    }
}

/// The probe that answers a reading step, given what the database holds.
pub open spec fn answer(step: LegacyStep, table_exists: bool, user_version: i32, legacy_version: i32) -> LegacyProbe {
    match step {
        LegacyStep::CheckLegacyTable => LegacyProbe::LegacyTable { exists: table_exists },
        LegacyStep::ReadUserVersion => LegacyProbe::UserVersion { version: user_version },
        _ => LegacyProbe::LegacyVersion { version: legacy_version },
    }
}

/// The final step of a take-over run against a database that holds these
/// values, following the steps from the start.
pub open spec fn legacy_run_outcome(table_exists: bool, user_version: i32, legacy_version: i32) -> LegacyStep {
    let s1 = legacy_step_spec(LegacyProbe::Start);
    let s2 = legacy_step_spec(answer(s1, table_exists, user_version, legacy_version));
    if s2 is ReadUserVersion {
        let s3 = legacy_step_spec(answer(s2, table_exists, user_version, legacy_version));
        if s3 is ReadLegacyVersion {
            legacy_step_spec(answer(s3, table_exists, user_version, legacy_version))
        } else {
            s3
        }
    } else {
        s2
    }
}

/// A run ends by setting the version exactly when the legacy table exists,
/// the database tracks no version yet and the legacy version is positive,
/// and it then sets the legacy version; otherwise it changes nothing.
pub proof fn lemma_legacy_run_outcome(table_exists: bool, user_version: i32, legacy_version: i32)
    ensures
        legacy_run_outcome(table_exists, user_version, legacy_version) == if table_exists
            && user_version <= 0 && legacy_version > 0 {
            LegacyStep::SetUserVersion(legacy_version)
        } else {
            LegacyStep::Finish
        },
{
}

} // verus!
