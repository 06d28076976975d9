use backend::models::{BaseProblem, DiskProblem};
use backend::persist::{DirtyFlag, FlushAction, ProblemIdCounter};

fn problem(id: u32) -> DiskProblem {
    DiskProblem {
        base: BaseProblem {
            id,
            name: format!("Problem {}", id),
            description: None,
            author: "alice".to_string(),
            grade: 5,
            sector_id: 1,
            updated_at: "0".to_string(),
        },
        hold_sequence: Vec::new(),
        grades: Vec::new(),
    }
}

#[test]
fn flush_twice_writes_once() {
    let mut f = DirtyFlag::new();
    assert_eq!(f.begin_flush(), FlushAction::Skip);
    f.mark_dirty();
    assert_eq!(f.begin_flush(), FlushAction::Save);
    f.finish_flush(true);
    assert_eq!(f.begin_flush(), FlushAction::Skip);
    assert!(!f.is_dirty());
}

#[test]
fn failed_save_is_retried() {
    let mut f = DirtyFlag::new();
    f.mark_dirty();
    assert_eq!(f.begin_flush(), FlushAction::Save);
    f.finish_flush(false);
    assert!(f.is_dirty());
    assert_eq!(f.begin_flush(), FlushAction::Save);
}

#[test]
fn missing_problems_start_ids_at_one() {
    let problems: Vec<DiskProblem> = Vec::new();
    let mut ids = ProblemIdCounter::from_problems(&problems);
    assert_eq!(ids.next_problem_id(), 1);
    assert_eq!(ids.get_next_problem_id(), 1);
    assert_eq!(ids.next_problem_id(), 2);
}

#[test]
fn ids_continue_after_largest() {
    let problems = vec![problem(3), problem(17), problem(9)];
    let mut ids = ProblemIdCounter::from_problems(&problems);
    assert_eq!(ids.next_problem_id(), 18);
    assert_eq!(ids.get_next_problem_id(), 18);
    assert_eq!(ids.get_next_problem_id(), 19);
}
