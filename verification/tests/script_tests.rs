use mirakc::decimal::i64_to_string;
use mirakc::models::priority_from_candidates;
use mirakc::script::concurrency_permits;
use mirakc::decimal::u64_to_string;
use mirakc::models::MirakurunProgramId;
use mirakc::models::MirakurunServiceId;
use mirakc::models::TunerSessionId;
use mirakc::models::TunerSubscriptionId;
use mirakc::script::programs_updated_line;
use mirakc::script::recording_failed_lines;
use mirakc::script::recording_program_line;
use mirakc::script::RecordingFailedReason;
use mirakc::script::RecordingStoppedResult;

#[test]
fn test_recording_stopped_result() {
    assert_eq!(
        r#"{"ok":0}"#,
        RecordingStoppedResult::from(Ok(0)).to_json()
    );
    assert_eq!(
        r#"{"err":"msg"}"#,
        RecordingStoppedResult::from(Err("msg".to_string())).to_json()
    );
}

#[test]
fn test_recording_stopped_result_escaping() {
    assert_eq!(
        "{\"err\":\"a\\\"b\\\\c\\u000ad\"}",
        RecordingStoppedResult::from(Err("a\"b\\c\nd".to_string())).to_json()
    );
}

#[test]
fn test_recording_failed_reason_json() {
    let reason = RecordingFailedReason::IoError {
        message: "message".to_string(),
        os_error: None,
    };
    assert_eq!(
        r#"{"type":"ioError","message":"message","osError":null}"#,
        reason.to_json()
    );
    let reason = RecordingFailedReason::IoError {
        message: "m".to_string(),
        os_error: Some(-2),
    };
    assert_eq!(
        r#"{"type":"ioError","message":"m","osError":-2}"#,
        reason.to_json()
    );
    let reason = RecordingFailedReason::PipelineError { exit_code: 1 };
    assert_eq!(r#"{"type":"pipelineError","exitCode":1}"#, reason.to_json());
    let reason = RecordingFailedReason::RetryFailed;
    assert_eq!(r#"{"type":"retryFailed"}"#, reason.to_json());
}

#[test]
fn test_script_lines() {
    let service_id = MirakurunServiceId::new(1, 2);
    assert_eq!(programs_updated_line(&service_id), "100002\n");

    let program_id = MirakurunProgramId::new(1, 2, 3);
    assert_eq!(recording_program_line(&program_id), "10000200003\n");

    let (first, second) =
        recording_failed_lines(&program_id, &RecordingFailedReason::RetryFailed);
    assert_eq!(first, "10000200003\n");
    assert_eq!(second, "{\"type\":\"retryFailed\"}\n");
}

#[test]
fn test_concurrency_permits() {
    let max = usize::MAX >> 3;
    assert_eq!(concurrency_permits(None, max), max);
    assert_eq!(concurrency_permits(Some(0), max), 1);
    assert_eq!(concurrency_permits(Some(4), max), 4);
}

#[test]
fn test_priority_from_candidates() {
    assert_eq!(priority_from_candidates(&vec![]).value, 0);
    assert_eq!(priority_from_candidates(&vec![3, 1, 2]).value, 3);
    assert_eq!(priority_from_candidates(&vec![-5, -1]).value, 0);
}

#[test]
fn test_decimal_rendering() {
    assert_eq!(u64_to_string(0), "0");
    assert_eq!(u64_to_string(42), "42");
    assert_eq!(u64_to_string(u64::MAX), "18446744073709551615");
    assert_eq!(i64_to_string(-1), "-1");
    assert_eq!(i64_to_string(i64::MIN), "-9223372036854775808");
    assert_eq!(i64_to_string(7), "7");
}

#[test]
fn test_id_display_strings() {
    let id = TunerSubscriptionId::new(TunerSessionId::new(2, 5), 3);
    assert_eq!(id.session_id.display_string(), "tuner#2.5");
    assert_eq!(id.display_string(), "tuner#2.5.3");
}
