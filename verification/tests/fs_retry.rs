use umadev::fs_retry::{retry_transient, Attempt, RetryStep};

fn run<T>(windows: bool, mut operation: impl FnMut() -> Result<T, i32>) -> Result<T, i32> {
    loop {
        let outcome = operation();
        let attempt = match &outcome {
            Ok(_) => Attempt::Succeeded,
            Err(code) => Attempt::Failed(Some(*code)),
        };
        match retry_transient(windows, attempt, 0) {
            RetryStep::Finish => return outcome,
            RetryStep::Retry => {}
        }
    }
}

#[test]
fn transient_windows_file_conflicts_are_retried_but_other_errors_are_not() {
    let mut transient_attempts = 0;
    run(true, || {
        transient_attempts += 1;
        if transient_attempts < 3 {
            Err(32)
        } else {
            Ok(())
        }
    })
    .unwrap();
    assert_eq!(transient_attempts, 3);

    let mut permanent_attempts = 0;
    let error = run(true, || {
        permanent_attempts += 1;
        Err::<(), _>(87)
    })
    .unwrap_err();
    assert_eq!(error, 87);
    assert_eq!(permanent_attempts, 1);
}

#[test]
fn retries_stop_off_windows_and_after_the_deadline() {
    assert_eq!(retry_transient(false, Attempt::Failed(Some(32)), 0), RetryStep::Finish);
    assert_eq!(retry_transient(true, Attempt::Failed(Some(5)), 1_999), RetryStep::Retry);
    assert_eq!(retry_transient(true, Attempt::Failed(Some(33)), 2_000), RetryStep::Finish);
    assert_eq!(retry_transient(true, Attempt::Failed(None), 0), RetryStep::Finish);
    assert_eq!(retry_transient(true, Attempt::Succeeded, 0), RetryStep::Finish);
}
