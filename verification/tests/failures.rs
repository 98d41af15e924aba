use denia::agent::errors::{classify, feedback_eligible, feedback_text, summarize_failure, truncate_raw};
use denia::codes;
use denia::error::{LlmError, LlmFailure};

#[test]
fn auth_failure_gets_credential_hint() {
    let failure = LlmFailure::new(codes::AUTH, "invalid api key");
    let summarized = summarize_failure(&failure, 0);
    assert_eq!(summarized.code, codes::AUTH);
    assert!(summarized.message.contains("认证失败"));
    assert!(summarized.message.contains("凭据"));
    assert!(summarized.message.contains("原始信息:invalid api key"));
    assert!(!summarized.message.contains("已自动重试"));
}

#[test]
fn context_window_failure_points_to_compaction() {
    let failure = LlmFailure::new(codes::CONTEXT_WINDOW_EXCEEDED, "max tokens exceeded");
    let summarized = summarize_failure(&failure, 0);
    assert!(summarized.message.contains("上下文窗口"));
    assert!(summarized.message.contains("压缩"));
}

#[test]
fn retried_failures_mention_the_count() {
    let failure = LlmFailure::new(codes::TIMEOUT, "request timed out");
    let summarized = summarize_failure(&failure, 5);
    assert!(summarized.message.contains("已自动重试 5 次"), "{}", summarized.message);
    let zero = summarize_failure(&failure, 0);
    assert!(!zero.message.contains("已自动重试"));
}

#[test]
fn oversized_raw_message_is_trimmed() {
    let raw = "x".repeat(1000);
    let failure = LlmFailure::new(codes::UNKNOWN, &raw);
    let summarized = summarize_failure(&failure, 0);
    assert!(summarized.message.chars().count() < 600, "{}", summarized.message.len());
    assert!(summarized.message.contains("…"));
}

#[test]
fn feedback_channel_unchanged() {
    assert!(feedback_eligible(codes::MALFORMED_RESPONSE));
    assert!(!feedback_eligible(codes::AUTH));
    assert!(!feedback_eligible(codes::RATE_LIMIT));
    let text = feedback_text(&LlmFailure::new(codes::MALFORMED_RESPONSE, "bad"));
    assert!(text.contains("[harness]"));
    assert!(text.contains("MALFORMED_RESPONSE"));
}

#[test]
fn feedback_for_stream_anomalies_does_not_blame_tool_arguments() {
    let text = feedback_text(&LlmFailure::new(codes::MALFORMED_RESPONSE, "bad payload"));
    assert!(!text.contains("工具参数格式"), "{text}");
    assert!(text.contains("上游响应流"), "{text}");
    let invalid = feedback_text(&LlmFailure::new(codes::INVALID_REQUEST, "bad args"));
    assert!(invalid.contains("工具参数格式"), "{invalid}");
}

#[test]
fn stream_anomaly_summary_never_claims_retries_that_did_not_happen() {
    let failure = LlmFailure::new(codes::MALFORMED_RESPONSE, "malformed SSE payload: x");
    let summarized = summarize_failure(&failure, 0);
    assert!(!summarized.message.contains("已自动重试"), "{}", summarized.message);
    assert!(summarized.message.contains("原始信息"), "{}", summarized.message);
}

#[test]
fn raw_text_is_cut_by_characters() {
    let short = "错".repeat(300);
    assert_eq!(truncate_raw(&short), short);
    assert_eq!(truncate_raw(&"错".repeat(301)), format!("{short}…"));
}

#[test]
fn every_code_has_a_heading() {
    for code in [codes::AUTH, codes::TIMEOUT, codes::QUOTA, codes::UNKNOWN, "SOMETHING_ELSE"] {
        let (heading, advice) = classify(code, 0);
        assert!(!heading.is_empty());
        assert!(!advice.is_empty());
    }
}

#[test]
fn failure_is_built_up() {
    let failure = LlmFailure::new(codes::SERVER, "oops")
        .with_status(503)
        .with_retry_after_ms(1500)
        .with_request_id("req-1");
    assert_eq!(failure.status, Some(503));
    assert_eq!(failure.provider_retry_after_ms, Some(1500));
    assert_eq!(failure.request_id, Some("req-1".to_string()));
    let error = LlmError::from_failure(failure.clone());
    assert_eq!(error.code, codes::SERVER);
    assert_eq!(error.failure, failure);
    assert!(LlmError::new(codes::AUTH, "no").to_text().contains("no"));
}
