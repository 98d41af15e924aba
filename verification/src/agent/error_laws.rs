//! What holds of the words in which a failure is told.
use vstd::prelude::*;

use crate::agent::errors;
use crate::codes;
use crate::error::FailureView;
use crate::text;
use crate::text_laws;

verus! {

proof fn lemma_codes()
    ensures
        codes::AUTH@.len() == 4,
        codes::INVALID_CREDENTIAL@.len() == 18,
        codes::MISSING_CREDENTIAL@.len() == 18,
        codes::QUOTA@.len() == 5,
        codes::RATE_LIMIT@.len() == 10,
        codes::SERVER@.len() == 6,
        codes::TIMEOUT@.len() == 7,
        codes::TRANSPORT@.len() == 9,
        codes::CONTEXT_WINDOW_EXCEEDED@.len() == 23,
        codes::MALFORMED_RESPONSE@.len() == 18,
        codes::EMPTY_RESPONSE@.len() == 14,
        codes::STREAM_CLOSED@.len() == 13,
        codes::UNSUPPORTED_CONTENT@.len() == 19,
        codes::UNSUPPORTED_REASONING_EFFORT@.len() == 28,
        codes::INVALID_REQUEST@.len() == 15,
        codes::NO_ADAPTER@.len() == 10,
        codes::MISSING_CREDENTIAL@ != codes::MALFORMED_RESPONSE@,
        codes::INVALID_CREDENTIAL@ != codes::MALFORMED_RESPONSE@,
        codes::NO_ADAPTER@ != codes::RATE_LIMIT@,
{
    reveal_strlit("AUTH");
    reveal_strlit("INVALID_CREDENTIAL");
    reveal_strlit("MISSING_CREDENTIAL");
    reveal_strlit("QUOTA");
    reveal_strlit("RATE_LIMIT");
    reveal_strlit("SERVER");
    reveal_strlit("TIMEOUT");
    reveal_strlit("TRANSPORT");
    reveal_strlit("CONTEXT_WINDOW_EXCEEDED");
    reveal_strlit("MALFORMED_RESPONSE");
    reveal_strlit("EMPTY_RESPONSE");
    reveal_strlit("STREAM_CLOSED");
    reveal_strlit("UNSUPPORTED_CONTENT");
    reveal_strlit("UNSUPPORTED_REASONING_EFFORT");
    reveal_strlit("INVALID_REQUEST");
    reveal_strlit("NO_ADAPTER");
    assert(codes::MISSING_CREDENTIAL@[1] != codes::MALFORMED_RESPONSE@[1]);
    assert(codes::INVALID_CREDENTIAL@[0] != codes::MALFORMED_RESPONSE@[0]);
    assert(codes::NO_ADAPTER@[0] != codes::RATE_LIMIT@[0]);
}

/// The user is told what went wrong by the kind of the failure.
pub proof fn failure_is_told_by_its_kind(retries: u32)
    ensures
        text::has(errors::classified(codes::AUTH@, retries).0, "认证"@),
        text::has(errors::classified(codes::INVALID_CREDENTIAL@, retries).0, "认证"@),
        text::has(errors::classified(codes::MISSING_CREDENTIAL@, retries).0, "认证"@),
        text::has(errors::classified(codes::QUOTA@, retries).0, "配额"@),
        text::has(errors::classified(codes::RATE_LIMIT@, retries).0, "限流"@),
        text::has(errors::classified(codes::SERVER@, retries).0, "服务端"@),
        text::has(errors::classified(codes::TIMEOUT@, retries).0, "超时"@),
        text::has(errors::classified(codes::TRANSPORT@, retries).0, "网络"@),
        text::has(errors::classified(codes::CONTEXT_WINDOW_EXCEEDED@, retries).0, "上下文窗口"@),
        text::has(errors::classified(codes::MALFORMED_RESPONSE@, retries).0, "异常响应"@),
        text::has(errors::classified(codes::EMPTY_RESPONSE@, retries).0, "异常响应"@),
        text::has(errors::classified(codes::STREAM_CLOSED@, retries).0, "异常响应"@),
        text::has(errors::classified(codes::UNSUPPORTED_CONTENT@, retries).0, "内容"@),
        text::has(errors::classified(codes::UNSUPPORTED_REASONING_EFFORT@, retries).0, "推理强度"@),
        text::has(errors::classified(codes::INVALID_REQUEST@, retries).0, "拒绝"@),
        text::has(errors::classified(codes::NO_ADAPTER@, retries).0, "适配器"@),
{
    lemma_codes();
    assert(text::has("提供方认证失败。"@, "认证"@)) by {
        reveal_strlit("提供方认证失败。");
        reveal_strlit("认证");
        assert("提供方认证失败。"@.subrange(3, 5) =~= "认证"@);
        assert(text::occurs_at("提供方认证失败。"@, "认证"@, 3));
    }
    assert(text::has("账户配额或余额不足。"@, "配额"@)) by {
        reveal_strlit("账户配额或余额不足。");
        reveal_strlit("配额");
        assert("账户配额或余额不足。"@.subrange(2, 4) =~= "配额"@);
        assert(text::occurs_at("账户配额或余额不足。"@, "配额"@, 2));
    }
    assert(text::has("触发提供方限流。"@, "限流"@)) by {
        reveal_strlit("触发提供方限流。");
        reveal_strlit("限流");
        assert("触发提供方限流。"@.subrange(5, 7) =~= "限流"@);
        assert(text::occurs_at("触发提供方限流。"@, "限流"@, 5));
    }
    assert(text::has("提供方服务端错误。"@, "服务端"@)) by {
        reveal_strlit("提供方服务端错误。");
        reveal_strlit("服务端");
        assert("提供方服务端错误。"@.subrange(3, 6) =~= "服务端"@);
        assert(text::occurs_at("提供方服务端错误。"@, "服务端"@, 3));
    }
    assert(text::has("请求超时,提供方长时间未响应。"@, "超时"@)) by {
        reveal_strlit("请求超时,提供方长时间未响应。");
        reveal_strlit("超时");
        assert("请求超时,提供方长时间未响应。"@.subrange(2, 4) =~= "超时"@);
        assert(text::occurs_at("请求超时,提供方长时间未响应。"@, "超时"@, 2));
    }
    assert(text::has("网络连接失败,无法到达提供方。"@, "网络"@)) by {
        reveal_strlit("网络连接失败,无法到达提供方。");
        reveal_strlit("网络");
        assert("网络连接失败,无法到达提供方。"@.subrange(0, 2) =~= "网络"@);
        assert(text::occurs_at("网络连接失败,无法到达提供方。"@, "网络"@, 0));
    }
    assert(text::has("请求超出模型上下文窗口。"@, "上下文窗口"@)) by {
        reveal_strlit("请求超出模型上下文窗口。");
        reveal_strlit("上下文窗口");
        assert("请求超出模型上下文窗口。"@.subrange(6, 11) =~= "上下文窗口"@);
        assert(text::occurs_at("请求超出模型上下文窗口。"@, "上下文窗口"@, 6));
    }
    assert(text::has("提供方返回异常响应(空响应/流中断/格式错误)。"@, "异常响应"@)) by {
        reveal_strlit("提供方返回异常响应(空响应/流中断/格式错误)。");
        reveal_strlit("异常响应");
        assert("提供方返回异常响应(空响应/流中断/格式错误)。"@.subrange(5, 9) =~= "异常响应"@);
        assert(text::occurs_at("提供方返回异常响应(空响应/流中断/格式错误)。"@, "异常响应"@, 5));
    }
    assert(text::has("请求包含当前模型不支持的内容。"@, "内容"@)) by {
        reveal_strlit("请求包含当前模型不支持的内容。");
        reveal_strlit("内容");
        assert("请求包含当前模型不支持的内容。"@.subrange(12, 14) =~= "内容"@);
        assert(text::occurs_at("请求包含当前模型不支持的内容。"@, "内容"@, 12));
    }
    assert(text::has("当前模型不支持所选推理强度。"@, "推理强度"@)) by {
        reveal_strlit("当前模型不支持所选推理强度。");
        reveal_strlit("推理强度");
        assert("当前模型不支持所选推理强度。"@.subrange(9, 13) =~= "推理强度"@);
        assert(text::occurs_at("当前模型不支持所选推理强度。"@, "推理强度"@, 9));
    }
    assert(text::has("请求被提供方拒绝,自动纠错未能解决。"@, "拒绝"@)) by {
        reveal_strlit("请求被提供方拒绝,自动纠错未能解决。");
        reveal_strlit("拒绝");
        assert("请求被提供方拒绝,自动纠错未能解决。"@.subrange(6, 8) =~= "拒绝"@);
        assert(text::occurs_at("请求被提供方拒绝,自动纠错未能解决。"@, "拒绝"@, 6));
    }
    assert(text::has("该提供方没有可用的适配器。"@, "适配器"@)) by {
        reveal_strlit("该提供方没有可用的适配器。");
        reveal_strlit("适配器");
        assert("该提供方没有可用的适配器。"@.subrange(9, 12) =~= "适配器"@);
        assert(text::occurs_at("该提供方没有可用的适配器。"@, "适配器"@, 9));
    }
}

/// How often a request was tried again is told, unless the advice says so itself.
pub proof fn tries_are_told(code: Seq<char>, retries: u32)
    ensures
        retries == 0 ==> errors::retry_note(code, retries).len() == 0,
        code == codes::RATE_LIMIT@ || code == codes::SERVER@ ==> errors::retry_note(
            code,
            retries,
        ).len() == 0,
        retries > 0 && code != codes::RATE_LIMIT@ && code != codes::SERVER@ ==> text::has(
            errors::retry_note(code, retries),
            text::decimal(retries as nat),
        ),
{
    text_laws::part_of_a_text_occurs("已自动重试 "@, text::decimal(retries as nat), " 次。"@);
}

/// What the user is told begins with what went wrong, and then tells how often it was tried and what
/// can be done.
pub proof fn failure_is_told_in_order(failure: FailureView, retries: u32)
    ensures
        ({
            let (conclusion, hint) = errors::classified(failure.code, retries);
            let note = errors::retry_note(failure.code, retries);
            let told = errors::summary_text(failure, retries);
            &&& (conclusion + note + hint).is_prefix_of(told)
            &&& text::is_blank(failure.message) ==> told == conclusion + note + hint
        }),
{
    let (conclusion, hint) = errors::classified(failure.code, retries);
    let advice = conclusion + errors::retry_note(failure.code, retries) + hint;
    let told = errors::summary_text(failure, retries);
    assert(advice =~= told.subrange(0, advice.len() as int));
}

} // verus!
