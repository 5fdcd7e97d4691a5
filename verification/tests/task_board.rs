use aionui::tasks::{TaskBoard, TaskStatus, TaskUpdate, TeamError, TeamTask};

fn create_simple_task(board: &mut TaskBoard, team_id: &str, subject: &str, id: &str) -> TeamTask {
    board.create_task(team_id, subject, None, None, &Vec::new(), id.to_string(), 1).unwrap()
}

fn completion() -> TaskUpdate {
    TaskUpdate { status: Some(TaskStatus::Completed), ..Default::default() }
}

#[test]
fn create_task_no_dependencies() {
    let mut board = TaskBoard::new();
    let task = create_simple_task(&mut board, "t1", "Implement feature", "task-1");
    assert_eq!(task.subject, "Implement feature");
    assert_eq!(task.status, TaskStatus::Pending);
    assert!(task.blocked_by.is_empty());
    assert!(task.blocks.is_empty());
}

#[test]
fn create_task_with_owner_and_description() {
    let mut board = TaskBoard::new();
    let task = board
        .create_task("t1", "Design API", Some("REST endpoints"), Some("a1"), &Vec::new(), "task-1".into(), 1)
        .unwrap();
    assert_eq!(task.description.as_deref(), Some("REST endpoints"));
    assert_eq!(task.owner.as_deref(), Some("a1"));
}

#[test]
fn create_task_with_dependencies() {
    let mut board = TaskBoard::new();
    let task_a = create_simple_task(&mut board, "t1", "Task A", "a");
    let task_b = board.create_task("t1", "Task B", None, None, &vec![task_a.id.clone()], "b".into(), 2).unwrap();

    assert_eq!(task_b.blocked_by, vec![task_a.id.clone()]);

    let tasks = board.list_tasks("t1");
    let updated_a = tasks.iter().find(|t| t.id == task_a.id).unwrap();
    assert_eq!(updated_a.blocks, vec![task_b.id]);
}

#[test]
fn create_task_nonexistent_dependency_fails() {
    let mut board = TaskBoard::new();
    let result = board.create_task("t1", "X", None, None, &vec!["nonexistent".to_string()], "x".into(), 1);
    assert!(matches!(result, Err(TeamError::BlockedTaskNotFound(_))));
}

#[test]
fn update_task_status() {
    let mut board = TaskBoard::new();
    let task = create_simple_task(&mut board, "t1", "Work", "w");
    let updated = board
        .update_task("t1", &task.id, &TaskUpdate { status: Some(TaskStatus::InProgress), ..Default::default() }, 5)
        .unwrap();
    assert_eq!(updated.status, TaskStatus::InProgress);
}

#[test]
fn update_task_description_and_owner() {
    let mut board = TaskBoard::new();
    let task = create_simple_task(&mut board, "t1", "Work", "w");
    let updated = board
        .update_task(
            "t1",
            &task.id,
            &TaskUpdate { description: Some("New desc".into()), owner: Some("a2".into()), ..Default::default() },
            5,
        )
        .unwrap();
    assert_eq!(updated.description.as_deref(), Some("New desc"));
    assert_eq!(updated.owner.as_deref(), Some("a2"));
}

#[test]
fn update_nonexistent_task_fails() {
    let mut board = TaskBoard::new();
    let result = board.update_task("t1", "nonexistent", &TaskUpdate::default(), 5);
    assert!(matches!(result, Err(TeamError::TaskNotFound(_))));
}

#[test]
fn complete_task_unblocks_downstream() {
    let mut board = TaskBoard::new();
    let task_a = create_simple_task(&mut board, "t1", "A", "a");
    let task_b = board.create_task("t1", "B", None, None, &vec![task_a.id.clone()], "b".into(), 2).unwrap();
    assert_eq!(task_b.blocked_by, vec![task_a.id.clone()]);

    board.update_task("t1", &task_a.id, &completion(), 3).unwrap();

    let tasks = board.list_tasks("t1");
    let b = tasks.iter().find(|t| t.id == task_b.id).unwrap();
    assert!(b.blocked_by.is_empty());
}

#[test]
fn complete_task_unblocks_multiple_downstream() {
    let mut board = TaskBoard::new();
    let task_a = create_simple_task(&mut board, "t1", "A", "a");
    let task_b = board.create_task("t1", "B", None, None, &vec![task_a.id.clone()], "b".into(), 2).unwrap();
    let task_c = board.create_task("t1", "C", None, None, &vec![task_a.id.clone()], "c".into(), 2).unwrap();

    board.update_task("t1", &task_a.id, &completion(), 3).unwrap();

    let tasks = board.list_tasks("t1");
    let b = tasks.iter().find(|t| t.id == task_b.id).unwrap();
    let c = tasks.iter().find(|t| t.id == task_c.id).unwrap();
    assert!(b.blocked_by.is_empty());
    assert!(c.blocked_by.is_empty());
}

#[test]
fn partial_unblock_preserves_other_dependencies() {
    let mut board = TaskBoard::new();
    let task_a = create_simple_task(&mut board, "t1", "A", "a");
    let task_x = create_simple_task(&mut board, "t1", "X", "x");
    let task_b = board
        .create_task("t1", "B", None, None, &vec![task_a.id.clone(), task_x.id.clone()], "b".into(), 2)
        .unwrap();
    assert_eq!(task_b.blocked_by.len(), 2);

    board.update_task("t1", &task_a.id, &completion(), 3).unwrap();

    let tasks = board.list_tasks("t1");
    let b = tasks.iter().find(|t| t.id == task_b.id).unwrap();
    assert_eq!(b.blocked_by, vec![task_x.id.clone()]);
}

#[test]
fn complete_task_no_downstream_is_noop() {
    let mut board = TaskBoard::new();
    let task = create_simple_task(&mut board, "t1", "Solo", "s");
    let updated = board.update_task("t1", &task.id, &completion(), 3).unwrap();
    assert_eq!(updated.status, TaskStatus::Completed);
}

#[test]
fn list_tasks_empty() {
    let board = TaskBoard::new();
    assert!(board.list_tasks("t1").is_empty());
}

#[test]
fn list_tasks_returns_all() {
    let mut board = TaskBoard::new();
    create_simple_task(&mut board, "t1", "A", "a");
    create_simple_task(&mut board, "t1", "B", "b");
    create_simple_task(&mut board, "t1", "C", "c");
    assert_eq!(board.list_tasks("t1").len(), 3);
}

#[test]
fn list_tasks_keeps_teams_apart() {
    let mut board = TaskBoard::new();
    create_simple_task(&mut board, "t1", "A", "a");
    create_simple_task(&mut board, "t2", "B", "b");
    let tasks = board.list_tasks("t2");
    assert_eq!(tasks.len(), 1);
    assert_eq!(tasks[0].subject, "B");
}

#[test]
fn dependency_in_another_team_is_not_found() {
    let mut board = TaskBoard::new();
    create_simple_task(&mut board, "t1", "A", "a");
    let result = board.create_task("t2", "B", None, None, &vec!["a".to_string()], "b".into(), 2);
    match result {
        Err(TeamError::BlockedTaskNotFound(id)) => assert_eq!(id, "a"),
        _ => panic!("expected a missing dependency"),
    }
    assert!(board.list_tasks("t2").is_empty());
}

#[test]
fn update_records_the_update_time() {
    let mut board = TaskBoard::new();
    let task = create_simple_task(&mut board, "t1", "A", "a");
    assert_eq!(task.created_at, 1);
    let updated = board.update_task("t1", "a", &TaskUpdate::default(), 9).unwrap();
    assert_eq!(updated.updated_at, 9);
    assert_eq!(updated.created_at, 1);
}
