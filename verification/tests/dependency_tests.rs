use mini_todo::dependency::{are_dependencies_met, has_circular_dependency};
use mini_todo::models::TaskDependency;

fn dep(id: i64, subtask: i64, on: i64, kind: &str) -> TaskDependency {
    TaskDependency {
        id,
        subtask_id: subtask,
        depends_on_id: on,
        dependency_type: kind.to_string(),
        created_at: "2024-01-01 00:00:00".to_string(),
    }
}

#[test]
fn cycle_detected_through_a_chain() {
    // 1 -> 2 -> 3: making 3 depend on 1 closes a cycle.
    let deps = vec![dep(1, 1, 2, "finish-to-start"), dep(2, 2, 3, "finish-to-start")];
    assert!(has_circular_dependency(&deps, 3, 1));
    assert!(!has_circular_dependency(&deps, 1, 3));
    assert!(!has_circular_dependency(&deps, 4, 1));
}

#[test]
fn self_dependency_is_a_cycle() {
    assert!(has_circular_dependency(&vec![], 5, 5));
}

#[test]
fn diamond_without_cycle() {
    let deps = vec![
        dep(1, 1, 2, "finish-to-start"),
        dep(2, 1, 3, "finish-to-start"),
        dep(3, 2, 4, "finish-to-start"),
        dep(4, 3, 4, "finish-to-start"),
    ];
    assert!(!has_circular_dependency(&deps, 5, 1));
    assert!(has_circular_dependency(&deps, 4, 1));
    assert!(has_circular_dependency(&deps, 3, 1));
}

#[test]
fn graph_with_an_existing_loop_still_terminates() {
    let deps = vec![dep(1, 1, 2, "x"), dep(2, 2, 1, "x")];
    assert!(!has_circular_dependency(&deps, 9, 1));
    assert!(has_circular_dependency(&deps, 2, 1));
}

#[test]
fn only_finish_to_start_dependencies_decide() {
    let deps = vec![dep(1, 10, 1, "finish-to-start"), dep(2, 10, 2, "start-to-start"), dep(3, 11, 3, "finish-to-start")];
    let statuses = vec![(1, "completed".to_string()), (2, "running".to_string()), (3, "pending".to_string())];
    assert_eq!(are_dependencies_met(&deps, 10, &statuses), Ok(true));
    assert_eq!(are_dependencies_met(&deps, 11, &statuses), Ok(false));
    assert_eq!(are_dependencies_met(&deps, 12, &statuses), Ok(true));
    let not_started = vec![(1, "completed".to_string()), (2, "pending".to_string())];
    assert_eq!(are_dependencies_met(&deps, 10, &not_started), Ok(true));
    assert_eq!(are_dependencies_met(&deps, 10, &vec![(1, "completed".to_string())]), Ok(true));
    let running_first = vec![(1, "running".to_string()), (2, "running".to_string())];
    assert_eq!(are_dependencies_met(&deps, 10, &running_first), Ok(false));
}

#[test]
fn other_kinds_are_ignored_and_missing_status_is_an_error() {
    let deps = vec![dep(1, 10, 1, "finish-to-finish"), dep(2, 10, 2, "finish-to-start")];
    assert_eq!(are_dependencies_met(&deps, 10, &vec![(2, "completed".to_string())]), Ok(true));
    assert_eq!(
        are_dependencies_met(&deps, 10, &vec![]),
        Err("Query returned no rows".to_string())
    );
}
