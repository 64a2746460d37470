//! Moving an installation to another place: copy, verify, rename.
//!
//! The old data is never deleted, only renamed as a backup. The steps on
//! disk are the caller's; which step comes next, what each result means
//! and when the move has to be undone is decided here.

use vstd::prelude::*;
use vstd::string::*;
use crate::commands::{is_restricted_path, restricted_path};
use crate::text::str_eq;

verus! {

/// The free space that a move needs beyond the size of the data.
pub const SAFETY_MARGIN_BYTES: u64 = 104857600;

/// The steps of a move, in their order.
#[derive(Debug, Clone, Copy, PartialEq, Eq, Structural)]
pub enum RelocationStage {
    /// Check the new path.
    Validate,
    /// Create the target directory and write a probe file into it.
    ProbeTarget,
    /// Measure the data and compare with the free space of the target.
    CheckSpace,
    /// Create the directory layout in the target.
    CreateLayout,
    /// Close the database.
    CloseDatabase,
    /// Copy the whole installation.
    Copy,
    /// Compare the copy with the source.
    Verify,
    /// Open the database of the copy.
    OpenDatabase,
    /// Write the new path into the database.
    UpdateInstallPath,
    /// Write the new path into the marker file.
    WriteMarker,
    /// Rename the old directory as a backup.
    RenameOld,
    /// The move is complete.
    Done,
}

/// What follows a step.
#[derive(Debug, Clone, Copy, PartialEq, Eq, Structural)]
pub enum RelocationNext {
    /// Go on with this step.
    Continue(RelocationStage),
    /// Give up; nothing has to be undone.
    Fail,
    /// Give up, after opening the database of the old place again and removing the
    /// partial copy.
    RollBack,
}

/// Why a move failed.
#[derive(Debug, Clone, Copy, PartialEq, Eq, Structural)]
pub enum RelocationError {
    /// The new path is empty.
    EmptyPath,
    /// The new path is the current one.
    SamePath,
    /// The new path lies where writing needs the administrator's rights.
    RestrictedPath,
    /// The target has less free space than the data and the margin need.
    NotEnoughSpace { required_bytes: u64, free_bytes: u64 },
    /// The copy holds fewer files or fewer bytes than the source.
    VerificationFailed { expected_files: u64, expected_bytes: u64, found_files: u64, found_bytes: u64 },
}

impl RelocationStage {
    /// The step after this one.
    pub open spec fn successor(self) -> RelocationStage {
        match self {
            RelocationStage::Validate => RelocationStage::ProbeTarget,
            RelocationStage::ProbeTarget => RelocationStage::CheckSpace,
            RelocationStage::CheckSpace => RelocationStage::CreateLayout,
            RelocationStage::CreateLayout => RelocationStage::CloseDatabase,
            RelocationStage::CloseDatabase => RelocationStage::Copy,
            RelocationStage::Copy => RelocationStage::Verify,
            RelocationStage::Verify => RelocationStage::OpenDatabase,
            RelocationStage::OpenDatabase => RelocationStage::UpdateInstallPath,
            RelocationStage::UpdateInstallPath => RelocationStage::WriteMarker,
            RelocationStage::WriteMarker => RelocationStage::RenameOld,
            RelocationStage::RenameOld => RelocationStage::Done,
            RelocationStage::Done => RelocationStage::Done,
        }
    }

    /// Whether the database is closed and a copy may lie in the target
    /// while this step runs, so that its failure has to be undone.
    pub open spec fn undo_on_failure(self) -> bool {
        self == RelocationStage::Copy || self == RelocationStage::Verify || self
            == RelocationStage::OpenDatabase || self == RelocationStage::UpdateInstallPath || self
            == RelocationStage::WriteMarker
    }
}

/// What follows the step `stage`, given whether it succeeded. A failed
/// rename of the old directory is no failure of the move: the old
/// directory then stays where it is. Every failure between closing the
/// database and that rename is undone.
pub open spec fn after_stage(stage: RelocationStage, succeeded: bool) -> RelocationNext {
    if succeeded || stage == RelocationStage::RenameOld || stage == RelocationStage::Done {
        RelocationNext::Continue(stage.successor())
    } else if stage.undo_on_failure() {
        RelocationNext::RollBack
    } else {
        RelocationNext::Fail
    }
}

/// What follows the step `stage` (see [`after_stage`]).
pub fn next_stage(stage: RelocationStage, succeeded: bool) -> (n: RelocationNext)
    ensures
        n == after_stage(stage, succeeded),
{
    let successor = match stage {
        RelocationStage::Validate => RelocationStage::ProbeTarget,
        RelocationStage::ProbeTarget => RelocationStage::CheckSpace,
        RelocationStage::CheckSpace => RelocationStage::CreateLayout,
        RelocationStage::CreateLayout => RelocationStage::CloseDatabase,
        RelocationStage::CloseDatabase => RelocationStage::Copy,
        RelocationStage::Copy => RelocationStage::Verify,
        RelocationStage::Verify => RelocationStage::OpenDatabase,
        RelocationStage::OpenDatabase => RelocationStage::UpdateInstallPath,
        RelocationStage::UpdateInstallPath => RelocationStage::WriteMarker,
        RelocationStage::WriteMarker => RelocationStage::RenameOld,
        RelocationStage::RenameOld => RelocationStage::Done,
        RelocationStage::Done => RelocationStage::Done,
    };
    let undo = match stage {
        RelocationStage::Copy => true,
        RelocationStage::Verify => true,
        RelocationStage::OpenDatabase => true,
        RelocationStage::UpdateInstallPath => true,
        RelocationStage::WriteMarker => true,
        _ => false,
    };
    let never_fails = match stage {
        RelocationStage::RenameOld => true,
        RelocationStage::Done => true,
        _ => false,
    };
    if succeeded || never_fails {
        RelocationNext::Continue(successor)
    } else if undo {
        RelocationNext::RollBack
    } else {
        RelocationNext::Fail
    }
}

/// No failure before the database is closed needs undoing, every failure
/// after it and before the rename is undone, and the rename cannot fail
/// the move.
pub proof fn lemma_failures_are_undone(stage: RelocationStage)
    ensures
        stage.undo_on_failure() ==> after_stage(stage, false) == RelocationNext::RollBack,
        after_stage(RelocationStage::RenameOld, false) == RelocationNext::Continue(RelocationStage::Done),
        after_stage(stage, false) == RelocationNext::Fail ==> (stage == RelocationStage::Validate
            || stage == RelocationStage::ProbeTarget || stage == RelocationStage::CheckSpace || stage
            == RelocationStage::CreateLayout || stage == RelocationStage::CloseDatabase),
{
}

/// Checks the new path of a move: it must not be empty, must differ from
/// the current path, and must not lie where writing needs the
/// administrator's rights.
pub fn check_target(current_path: &str, new_path: &str) -> (r: Result<(), RelocationError>)
    ensures
        r == if new_path@.len() == 0 {
            Err::<(), RelocationError>(RelocationError::EmptyPath)
        } else if new_path@ == current_path@ {
            Err(RelocationError::SamePath)
        } else if restricted_path(new_path@) {
            Err(RelocationError::RestrictedPath)
        } else {
            Ok(())
        },
{
    if new_path.unicode_len() == 0 {
        Err(RelocationError::EmptyPath)
    } else if str_eq(new_path, current_path) {
        Err(RelocationError::SamePath)
    } else if is_restricted_path(new_path) {
        Err(RelocationError::RestrictedPath)
    } else {
        Ok(())
    }
}

/// The free space that moving `current_bytes` of data needs: the data and
/// the safety margin.
pub open spec fn required_space(current_bytes: u64) -> int {
    current_bytes + SAFETY_MARGIN_BYTES
}

/// `n`, or the largest number of bytes that can be written down where `n`
/// is larger.
pub open spec fn capped(n: int) -> u64 {
    if n > u64::MAX {
        u64::MAX
    } else {
        n as u64
    }
}

/// Checks the free space of the target. `free_bytes` is `None` where it
/// could not be measured; the move then goes on.
pub fn check_space(current_bytes: u64, free_bytes: Option<u64>) -> (r: Result<(), RelocationError>)
    ensures
        match free_bytes {
            Some(free) => if free < required_space(current_bytes) {
                r == Err::<(), RelocationError>(
                    RelocationError::NotEnoughSpace {
                        required_bytes: capped(required_space(current_bytes)),
                        free_bytes: free,
                    },
                )
            } else {
                r is Ok
            },
            None => r is Ok,
        },
{
    match free_bytes {
        None => Ok(()),
        Some(free) => {
            let required: u64 = if current_bytes > u64::MAX - SAFETY_MARGIN_BYTES {
                u64::MAX
            } else {
                current_bytes + SAFETY_MARGIN_BYTES
            };
            if current_bytes > u64::MAX - SAFETY_MARGIN_BYTES || free < required {
                Err(RelocationError::NotEnoughSpace { required_bytes: required, free_bytes: free })
            } else {
                Ok(())
            }
        },
    }
}

/// Compares a copy with its source: it must hold at least as many files
/// and at least as many bytes.
pub fn verify_copy(old_bytes: u64, old_files: u64, new_bytes: u64, new_files: u64) -> (r: Result<
    (),
    RelocationError,
>)
    ensures
        r == if new_files < old_files || new_bytes < old_bytes {
            Err::<(), RelocationError>(
                RelocationError::VerificationFailed {
                    expected_files: old_files,
                    expected_bytes: old_bytes,
                    found_files: new_files,
                    found_bytes: new_bytes,
                },
            )
        } else {
            Ok(())
        },
{
    if new_files < old_files || new_bytes < old_bytes {
        Err(
            RelocationError::VerificationFailed {
                expected_files: old_files,
                expected_bytes: old_bytes,
                found_files: new_files,
                found_bytes: new_bytes,
            },
        )
    } else {
        Ok(())
    }
}

/// The name of the backup of the directory `dir_name`, made at the time
/// that `stamp` writes.
pub fn backup_name(dir_name: &str, stamp: &str) -> (r: String)
    ensures
        r@ == dir_name@ + "_migrated_"@ + stamp@,
{
    let mut r = String::from_str(dir_name);
    r.append("_migrated_");
    r.append(stamp);
    r
}

/// What a completed move reports: where the backup lies, or that the old
/// directory could not be renamed and stays where it is.
pub fn backup_report(renamed: bool, backup_path: &str, old_path: &str) -> (r: String)
    ensures
        r@ == if renamed {
            backup_path@
        } else {
            old_path@ + " (could not rename, please delete manually)"@
        },
{
    if renamed {
        String::from_str(backup_path)
    } else {
        let mut r = String::from_str(old_path);
        r.append(" (could not rename, please delete manually)");
        r
    }
}

} // verus!
