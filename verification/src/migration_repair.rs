//! The decisions of the database upgrade repair that runs before the
//! migrations: whether it applies at all, and what it does to the
//! assistant workspace columns and the overlay migration record.
use vstd::prelude::*;

verus! {

/// The migration that moved records to user scope.
pub const USER_SCOPE_MIGRATION_VERSION: i64 = 30;

/// The migration that created the assistant workspace overlay.
pub const ASSISTANT_WORKSPACE_OVERLAY_MIGRATION_VERSION: i64 = 900023;

/// The migration whose checksum is realigned before any other step.
pub const CODEX_FULL_ACCESS_MIGRATION_VERSION: i64 = 21;

/// The repair only runs on databases that have both the assistant overlay
/// table and the user preference table.
pub fn repair_applies(overlay_table_exists: bool, preferences_table_exists: bool) -> (r: bool)
    ensures
        r == (overlay_table_exists && preferences_table_exists),
{
    overlay_table_exists && preferences_table_exists
}

/// What the repair does once it applies.
#[derive(Debug, Clone, Copy, PartialEq, Eq, Structural)]
pub struct RepairPlan {
    /// Save the assistants' workspace settings before the user-scope rebuild.
    pub backup_workspace_values: bool,
    /// Drop the record of the overlay migration so that it runs again after
    /// the user-scope rebuild.
    pub forget_overlay_migration: bool,
    /// Recreate the assistant workspace columns an earlier upgrade removed.
    pub repair_overlay_schema: bool,
}

/// The plan for a database in the given state: before the user-scope
/// migration, keep the workspace settings (when the columns exist) and
/// defer an already recorded overlay migration; after it, recreate the
/// workspace columns when the overlay migration is recorded but the
/// columns are gone; otherwise nothing.
pub fn repair_plan(assistant_columns_exist: bool, user_scope_applied: bool, workspace_overlay_applied: bool) -> (p:
    RepairPlan)
    ensures
        p.backup_workspace_values == (!user_scope_applied && assistant_columns_exist),
        p.forget_overlay_migration == (!user_scope_applied && workspace_overlay_applied),
        p.repair_overlay_schema == (user_scope_applied && workspace_overlay_applied && !assistant_columns_exist),
{
    if !user_scope_applied {
        RepairPlan {
            backup_workspace_values: assistant_columns_exist,
            forget_overlay_migration: workspace_overlay_applied,
            repair_overlay_schema: false,
        }
    } else {
        RepairPlan {
            backup_workspace_values: false,
            forget_overlay_migration: false,
            repair_overlay_schema: workspace_overlay_applied && !assistant_columns_exist,
        }
    }
}

/// A failure of the database start-up, with the stage it happened in and
/// the underlying error's message.
#[derive(Debug, Clone)]
pub struct DatabaseInitError {
    stage: String,
    message: String,
}

impl DatabaseInitError {
    pub closed spec fn stage_view(&self) -> Seq<char> {
        self.stage@
    }

    pub closed spec fn message_view(&self) -> Seq<char> {
        self.message@
    }

    /// A failure in `stage` caused by an error with message `message`.
    pub fn new(stage: &str, message: String) -> (e: Self)
        ensures
            e.stage_view() == stage@,
            e.message_view() == message@,
    {
        DatabaseInitError { stage: stage.to_owned(), message }
    }

    /// The stage the start-up failed in.
    pub fn stage(&self) -> (r: &str)
        ensures
            r@ == self.stage_view(),
    {
        self.stage.as_str()
    }

    /// The message of the underlying error.
    pub fn message(&self) -> (r: &str)
        ensures
            r@ == self.message_view(),
    {
        self.message.as_str()
    }
}

} // verus!
