use wmcssh::logging::{rotated_file_name, rotation_plan, RotationStep, MAX_LOG_SIZE_BYTES};

#[test]
fn rotated_names_carry_the_index() {
    assert_eq!(rotated_file_name(1), "wmcssh.log.1");
    assert_eq!(rotated_file_name(3), "wmcssh.log.3");
    assert_eq!(rotated_file_name(12), "wmcssh.log.12");
}

#[test]
fn small_or_unreadable_logs_are_not_rotated() {
    assert!(rotation_plan(None, &vec![true, true, true]).is_empty());
    assert!(rotation_plan(Some(MAX_LOG_SIZE_BYTES - 1), &vec![true, true, true]).is_empty());
}

#[test]
fn a_full_rotation_drops_the_oldest_and_shifts_the_rest() {
    let plan = rotation_plan(Some(MAX_LOG_SIZE_BYTES), &vec![true, true, true]);
    assert_eq!(
        plan,
        vec![
            RotationStep::Remove(3),
            RotationStep::Rename { from: 2, to: 3 },
            RotationStep::Rename { from: 1, to: 2 },
            RotationStep::RenameCurrent,
        ]
    );
}

#[test]
fn missing_older_logs_are_skipped() {
    let plan = rotation_plan(Some(5 * MAX_LOG_SIZE_BYTES), &vec![true, false, false]);
    assert_eq!(plan, vec![RotationStep::Rename { from: 1, to: 2 }, RotationStep::RenameCurrent]);
    let plan = rotation_plan(Some(MAX_LOG_SIZE_BYTES), &vec![false, false, false]);
    assert_eq!(plan, vec![RotationStep::RenameCurrent]);
}
