//! What becomes of a failed model request: what the model is told, and what the user is told.
use vstd::prelude::*;
use vstd::string::*;

use crate::codes;
use crate::error::{FailureView, LlmFailure};
use crate::text;
use crate::text::{cat3, cat5, chars_of, decimal_text, slice_text, str_eq, trim};

verus! {

/// How often, in one turn, the model is told of a failed request.
pub const MAX_FEEDBACK: u32 = 2;

/// How many characters of the provider's own words are shown.
pub const RAW_LIMIT: usize = 300;

/// Whether the model can do something about a failure. What the provider does of itself is tried
/// again, and what is wrong with the settings ends the turn.
pub open spec fn is_feedback_eligible(code: Seq<char>) -> bool {
    code == codes::INVALID_REQUEST@ || code == codes::MALFORMED_RESPONSE@ || code
        == codes::UNSUPPORTED_CONTENT@ || code == codes::UNSUPPORTED_REASONING_EFFORT@
}

/// Whether the model can do something about a failure.
pub fn feedback_eligible(code: &str) -> (yes: bool)
    ensures
        yes == is_feedback_eligible(code@),
{
    str_eq(code, codes::INVALID_REQUEST) || str_eq(code, codes::MALFORMED_RESPONSE) || str_eq(
        code,
        codes::UNSUPPORTED_CONTENT,
    ) || str_eq(code, codes::UNSUPPORTED_REASONING_EFFORT)
}

/// Whether a failure is one of the response itself.
pub open spec fn is_broken_response(code: Seq<char>) -> bool {
    code == codes::MALFORMED_RESPONSE@ || code == codes::EMPTY_RESPONSE@ || code
        == codes::STREAM_CLOSED@
}

fn broken_response(code: &str) -> (yes: bool)
    ensures
        yes == is_broken_response(code@),
{
    str_eq(code, codes::MALFORMED_RESPONSE) || str_eq(code, codes::EMPTY_RESPONSE) || str_eq(
        code,
        codes::STREAM_CLOSED,
    )
}

/// Advice on a broken response: the model's last output is not to blame.
pub const BROKEN_RESPONSE_ADVICE: &'static str =
    "这一条通常是上游响应流本身断掉或格式异常,不是你上一条输出的问题。请换一种表达重做上一步:简化工具调用的参数结构,或先用文字说明再发起调用,不要原样重复。";

/// Advice on a refused request.
pub const REFUSED_REQUEST_ADVICE: &'static str =
    "请检查并纠正上一条输出(尤其是工具参数格式)后继续,不要原样重复。";

/// What the model is told of a failure.
pub open spec fn feedback(failure: FailureView) -> Seq<char> {
    "[harness] 上一次模型请求被提供方拒绝("@ + failure.code + ":"@ + failure.message + ")。"@ + (
    if is_broken_response(failure.code) {
        BROKEN_RESPONSE_ADVICE@
    } else {
        REFUSED_REQUEST_ADVICE@
    })
}

/// What the model is told of a failure.
pub fn feedback_text(failure: &LlmFailure) -> (text: String)
    ensures
        text@ == feedback(failure@),
{
    let mut text = cat5(
        "[harness] 上一次模型请求被提供方拒绝(",
        failure.code.as_str(),
        ":",
        failure.message.as_str(),
        ")。",
    );
    if broken_response(failure.code.as_str()) {
        text.append(BROKEN_RESPONSE_ADVICE);
    } else {
        text.append(REFUSED_REQUEST_ADVICE);
    }
    text
}

/// What happened, and what the user can do, by the code of a failure.
pub open spec fn classified(code: Seq<char>, retries: u32) -> (Seq<char>, Seq<char>) {
    if code == codes::AUTH@ || code == codes::INVALID_CREDENTIAL@ || code
        == codes::MISSING_CREDENTIAL@ {
        ("提供方认证失败。"@, "请检查模型设置中的 API 凭据是否正确、是否过期。"@)
    } else if code == codes::QUOTA@ {
        ("账户配额或余额不足。"@, "请到提供方控制台确认额度,或更换模型/提供方。"@)
    } else if code == codes::RATE_LIMIT@ {
        (
            "触发提供方限流。"@,
            if retries > 0 {
                "已自动退避重试仍未成功,请稍后重试,或降低请求频率。"@
            } else {
                "请稍后重试,或降低请求频率。"@
            },
        )
    } else if code == codes::SERVER@ {
        (
            "提供方服务端错误。"@,
            "已自动重试仍未恢复,请稍后重试;持续失败可更换模型验证是否为提供方故障。"@,
        )
    } else if code == codes::TIMEOUT@ {
        (
            "请求超时,提供方长时间未响应。"@,
            "请检查网络连接;问题持续时尝试更换提供方或模型。"@,
        )
    } else if code == codes::TRANSPORT@ {
        (
            "网络连接失败,无法到达提供方。"@,
            "请检查网络与代理设置;问题持续时尝试更换提供方。"@,
        )
    } else if code == codes::CONTEXT_WINDOW_EXCEEDED@ {
        (
            "请求超出模型上下文窗口。"@,
            "请手动压缩上下文(上下文面板),或精简会话内容后重试。"@,
        )
    } else if is_broken_response(code) {
        (
            "提供方返回异常响应(空响应/流中断/格式错误)。"@,
            "多为网关或提供方抖动:可稍后重试;持续出现请更换提供方或模型。"@,
        )
    } else if code == codes::UNSUPPORTED_CONTENT@ {
        (
            "请求包含当前模型不支持的内容。"@,
            "请检查是否发送了该模型不支持的输入(如图片、文件);或更换支持的模型。"@,
        )
    } else if code == codes::UNSUPPORTED_REASONING_EFFORT@ {
        (
            "当前模型不支持所选推理强度。"@,
            "请在模型设置中调整推理强度或更换模型。"@,
        )
    } else if code == codes::INVALID_REQUEST@ {
        (
            "请求被提供方拒绝,自动纠错未能解决。"@,
            "可能与当前模型的能力或参数限制有关,请检查模型配置,或更换模型。"@,
        )
    } else if code == codes::NO_ADAPTER@ {
        ("该提供方没有可用的适配器。"@, "请检查提供方拼写与模型路由配置。"@)
    } else {
        (
            "发生未知错误。"@,
            "请查看原始信息定位问题;必要时重启开发实例或报告此错误。"@,
        )
    }
}

/// What happened, and what the user can do, by the code of a failure.
pub fn classify(code: &str, retries: u32) -> (text: (&'static str, &'static str))
    ensures
        (text.0@, text.1@) == classified(code@, retries),
{
    if str_eq(code, codes::AUTH) || str_eq(code, codes::INVALID_CREDENTIAL) || str_eq(
        code,
        codes::MISSING_CREDENTIAL,
    ) {
        ("提供方认证失败。", "请检查模型设置中的 API 凭据是否正确、是否过期。")
    } else if str_eq(code, codes::QUOTA) {
        ("账户配额或余额不足。", "请到提供方控制台确认额度,或更换模型/提供方。")
    } else if str_eq(code, codes::RATE_LIMIT) {
        (
            "触发提供方限流。",
            if retries > 0 {
                "已自动退避重试仍未成功,请稍后重试,或降低请求频率。"
            } else {
                "请稍后重试,或降低请求频率。"
            },
        )
    } else if str_eq(code, codes::SERVER) {
        (
            "提供方服务端错误。",
            "已自动重试仍未恢复,请稍后重试;持续失败可更换模型验证是否为提供方故障。",
        )
    } else if str_eq(code, codes::TIMEOUT) {
        (
            "请求超时,提供方长时间未响应。",
            "请检查网络连接;问题持续时尝试更换提供方或模型。",
        )
    } else if str_eq(code, codes::TRANSPORT) {
        (
            "网络连接失败,无法到达提供方。",
            "请检查网络与代理设置;问题持续时尝试更换提供方。",
        )
    } else if str_eq(code, codes::CONTEXT_WINDOW_EXCEEDED) {
        (
            "请求超出模型上下文窗口。",
            "请手动压缩上下文(上下文面板),或精简会话内容后重试。",
        )
    } else if broken_response(code) {
        (
            "提供方返回异常响应(空响应/流中断/格式错误)。",
            "多为网关或提供方抖动:可稍后重试;持续出现请更换提供方或模型。",
        )
    } else if str_eq(code, codes::UNSUPPORTED_CONTENT) {
        (
            "请求包含当前模型不支持的内容。",
            "请检查是否发送了该模型不支持的输入(如图片、文件);或更换支持的模型。",
        )
    } else if str_eq(code, codes::UNSUPPORTED_REASONING_EFFORT) {
        (
            "当前模型不支持所选推理强度。",
            "请在模型设置中调整推理强度或更换模型。",
        )
    } else if str_eq(code, codes::INVALID_REQUEST) {
        (
            "请求被提供方拒绝,自动纠错未能解决。",
            "可能与当前模型的能力或参数限制有关,请检查模型配置,或更换模型。",
        )
    } else if str_eq(code, codes::NO_ADAPTER) {
        ("该提供方没有可用的适配器。", "请检查提供方拼写与模型路由配置。")
    } else {
        (
            "发生未知错误。",
            "请查看原始信息定位问题;必要时重启开发实例或报告此错误。",
        )
    }
}

/// The first characters of a text that is too long, and an ellipsis.
pub open spec fn raw_head(raw: Seq<char>) -> Seq<char> {
    if raw.len() <= RAW_LIMIT {
        raw
    } else {
        raw.take(RAW_LIMIT as int) + "…"@
    }
}

/// Shortens the provider's own words.
pub fn truncate_raw(raw: &str) -> (text: String)
    ensures
        text@ == raw_head(raw@),
{
    let chars = chars_of(raw);
    if chars.len() <= RAW_LIMIT {
        return raw.to_owned();
    }
    let mut text = slice_text(&chars, 0, RAW_LIMIT);
    assert(text@ =~= raw@.take(RAW_LIMIT as int));
    text.append("…");
    text
}

/// How often the request was tried again. The advice on a rate limit and on a server error says
/// that itself.
pub open spec fn retry_note(code: Seq<char>, retries: u32) -> Seq<char> {
    if retries > 0 && code != codes::RATE_LIMIT@ && code != codes::SERVER@ {
        "已自动重试 "@ + text::decimal(retries as nat) + " 次。"@
    } else {
        Seq::empty()
    }
}

/// What the user is told of a failure that ends the turn.
pub open spec fn summary_text(failure: FailureView, retries: u32) -> Seq<char> {
    let raw = text::trimmed(failure.message);
    let (conclusion, hint) = classified(failure.code, retries);
    let advice = conclusion + retry_note(failure.code, retries) + hint;
    if raw.len() == 0 {
        advice
    } else {
        advice + ("(原始信息:"@ + raw_head(raw) + ")"@)
    }
}

/// The same failure with a message for the user.
pub fn summarize_failure(failure: &LlmFailure, retries: u32) -> (summarized: LlmFailure)
    ensures
        summarized@ == (FailureView { message: summary_text(failure@, retries), ..failure@ }),
{
    let code = failure.code.as_str();
    let (conclusion, hint) = classify(code, retries);
    let note = if retries > 0 && !str_eq(code, codes::RATE_LIMIT) && !str_eq(code, codes::SERVER) {
        cat3("已自动重试 ", decimal_text(retries as u64).as_str(), " 次。")
    } else {
        String::new()
    };
    let raw = trim(failure.message.as_str());
    let mut message = cat3(conclusion, note.as_str(), hint);
    if !raw.as_str().is_empty() {
        message.append(cat3("(原始信息:", truncate_raw(raw.as_str()).as_str(), ")").as_str());
    }
    let mut summarized = failure.clone();
    summarized.message = message;
    summarized
}

/// What the provider said never takes more than its share of the message.
pub proof fn raw_words_are_bounded(raw: Seq<char>)
    ensures
        raw_head(raw).len() <= RAW_LIMIT + 1,
{
    reveal_strlit("…");
}

/// A failure that was not retried is not said to have been, unless its advice says so.
pub proof fn no_retries_no_count(code: Seq<char>)
    ensures
        retry_note(code, 0) == Seq::<char>::empty(),
{
}

} // verus!
