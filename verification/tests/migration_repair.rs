use aionui::migration_repair::{repair_applies, repair_plan, RepairPlan};

#[test]
fn repair_needs_both_tables() {
    assert!(repair_applies(true, true));
    assert!(!repair_applies(true, false));
    assert!(!repair_applies(false, true));
}

#[test]
fn before_user_scope_the_overlay_migration_is_deferred() {
    assert_eq!(
        repair_plan(true, false, true),
        RepairPlan { backup_workspace_values: true, forget_overlay_migration: true, repair_overlay_schema: false }
    );
    assert_eq!(
        repair_plan(false, false, false),
        RepairPlan { backup_workspace_values: false, forget_overlay_migration: false, repair_overlay_schema: false }
    );
}

#[test]
fn after_user_scope_missing_columns_are_rebuilt() {
    assert_eq!(
        repair_plan(false, true, true),
        RepairPlan { backup_workspace_values: false, forget_overlay_migration: false, repair_overlay_schema: true }
    );
    assert_eq!(
        repair_plan(true, true, true),
        RepairPlan { backup_workspace_values: false, forget_overlay_migration: false, repair_overlay_schema: false }
    );
}

#[test]
fn database_schema_repair_stage_comes_from_db_boundary_error() {
    let err = aionui::migration_repair::DatabaseInitError::new("database.schema_repair", "repair failed".into());
    assert_eq!(err.stage(), "database.schema_repair");
    assert_eq!(err.message(), "repair failed");
}
