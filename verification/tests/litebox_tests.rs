use lotion_rs::litebox::{
    apply_fallback_sandbox, apply_windows_sandbox, isolation_outcome, LiteBox, TargetOs,
};

#[test]
fn new_sandbox_is_not_applied() {
    assert!(!LiteBox::new().is_initialized());
    assert!(!LiteBox::default().is_initialized());
}

#[test]
fn windows_and_fallback_steps_succeed() {
    assert_eq!(apply_windows_sandbox(), Ok(()));
    assert_eq!(apply_fallback_sandbox(), Ok(()));
}

#[test]
fn linux_success_marks_applied_and_second_call_does_not_rerun() {
    let mut lb = LiteBox::new();
    let mut runs = 0;
    assert_eq!(lb.apply_sandbox(TargetOs::Linux, || { runs += 1; Ok(()) }), Ok(()));
    assert!(lb.is_initialized());
    assert_eq!(lb.apply_sandbox(TargetOs::Linux, || { runs += 1; Err("again".to_string()) }), Ok(()));
    assert_eq!(runs, 1);
}

#[test]
fn linux_failure_is_returned_and_leaves_sandbox_unapplied() {
    let mut lb = LiteBox::new();
    let r = lb.apply_sandbox(TargetOs::Linux, || Err("denied".to_string()));
    assert_eq!(r, Err("denied".to_string()));
    assert!(!lb.is_initialized());
    assert_eq!(lb.apply_sandbox(TargetOs::Linux, || Ok(())), Ok(()));
    assert!(lb.is_initialized());
}

#[test]
fn other_platforms_do_not_run_the_linux_step() {
    let mut lb = LiteBox::new();
    assert_eq!(lb.apply_sandbox(TargetOs::Windows, || Err("no".to_string())), Ok(()));
    assert!(lb.is_initialized());
    let mut mac = LiteBox::new();
    assert_eq!(mac.apply_sandbox(TargetOs::MacOs, || Err("no".to_string())), Ok(()));
    assert!(mac.is_initialized());
    let mut other = LiteBox::new();
    assert_eq!(other.apply_sandbox(TargetOs::Other, || Err("no".to_string())), Ok(()));
    assert!(other.is_initialized());
}

#[test]
fn isolation_fails_closed_except_for_missing_privilege() {
    assert_eq!(isolation_outcome(0, None, ""), Ok(()));
    assert_eq!(isolation_outcome(-1, Some(1), "Operation not permitted (os error 1)"), Ok(()));
    let r = isolation_outcome(-1, Some(22), "Invalid argument (os error 22)");
    assert_eq!(
        r,
        Err("LiteBox: CRITICAL: Failed to unshare namespaces (might lack CAP_SYS_ADMIN or user namespaces restricted): Invalid argument (os error 22). Security boundary was NOT established.".to_string())
    );
    assert!(isolation_outcome(-1, None, "unknown").is_err());
}
