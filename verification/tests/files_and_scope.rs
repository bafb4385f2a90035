use iwm_runtime_core::context::{RuntimeBinaryFileState, RuntimeExecutionScope, StepExecutionResult};

#[test]
fn handles_start_at_one_and_count_up() {
    let mut files = RuntimeBinaryFileState::new();
    let a = files.open("a.dat".to_string(), 1, Vec::new());
    let b = files.open("b.dat".to_string(), 0, vec![1, 2]);
    assert_eq!(a, 1);
    assert_eq!(b, 2);
}

#[test]
fn written_bytes_come_back_on_close() {
    let mut files = RuntimeBinaryFileState::new();
    let h = files.open("save.dat".to_string(), 1, vec![9, 9, 9]);
    files.write_byte(h, 7);
    files.write_byte(h, 0);
    files.write_byte(h, 255);
    assert_eq!(files.close(h), Some(("save.dat".to_string(), vec![7, 0, 255])));
    assert_eq!(files.close(h), None);
}

#[test]
fn append_mode_keeps_the_existing_bytes() {
    let mut files = RuntimeBinaryFileState::new();
    let h = files.open("log.dat".to_string(), 2, vec![1, 2]);
    files.write_byte(h, 3);
    assert_eq!(files.close(h), Some(("log.dat".to_string(), vec![1, 2, 3])));
}

#[test]
fn reads_give_the_bytes_in_order_then_zero() {
    let mut files = RuntimeBinaryFileState::new();
    let h = files.open("save.dat".to_string(), 0, vec![5, 6]);
    assert_eq!(files.read_byte(h), 5);
    assert_eq!(files.read_byte(h), 6);
    assert_eq!(files.read_byte(h), 0);
    assert_eq!(files.read_byte(h), 0);
    files.write_byte(h, 1);
    assert_eq!(files.close(h), None);
}

#[test]
fn unknown_handles_change_nothing() {
    let mut files = RuntimeBinaryFileState::new();
    assert_eq!(files.read_byte(3), 0);
    files.write_byte(3, 1);
    assert_eq!(files.close(3), None);
    let w = files.open("w".to_string(), 7, Vec::new());
    assert_eq!(files.read_byte(w), 0);
    assert_eq!(files.close(w), Some(("w".to_string(), Vec::new())));
}

#[test]
fn declared_variables_hold_values_once_assigned() {
    let mut scope: RuntimeExecutionScope<u32> = RuntimeExecutionScope::new();
    assert!(!scope.is_local_key("i"));
    assert!(!scope.assign("i", 1));
    assert_eq!(scope.get("i"), None);
    scope.declare("i");
    assert!(scope.is_local_key("i"));
    assert_eq!(scope.get("i"), None);
    assert!(scope.assign("i", 4));
    assert_eq!(scope.get("i"), Some(4));
    scope.declare("i");
    assert_eq!(scope.get("i"), Some(4));
}

#[test]
fn elements_of_declared_arrays_are_local() {
    let mut scope: RuntimeExecutionScope<u32> = RuntimeExecutionScope::new();
    scope.declare("arr");
    assert!(scope.is_local_key("arr[0]"));
    assert!(scope.is_local_key("arr[x][y]"));
    assert!(scope.is_local_key("arr["));
    assert!(!scope.is_local_key("ar[0]"));
    assert!(!scope.is_local_key("arr2[0]"));
    assert!(scope.assign("arr[2]", 8));
    assert_eq!(scope.get("arr[2]"), Some(8));
    assert_eq!(scope.get("arr"), None);
}

#[test]
fn step_result_defaults_to_nothing_happened() {
    let r = StepExecutionResult::default();
    assert!(!r.interrupted && !r.player_motion_changed && !r.player_jump_owned_by_script);
}
