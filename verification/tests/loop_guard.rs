use denia::agent::loop_guard::{
    normalize_arguments, normalized_as, normalized_text, strip_spaces, tool_signature, LoopGuard,
    LoopVerdict,
};
use denia::json::Json;
use denia::stream::ContentBlock;

fn text_block(text: &str) -> ContentBlock {
    ContentBlock::Text { text: text.to_string() }
}

fn tool_block(name: &str, arguments: &str) -> ContentBlock {
    ContentBlock::ToolCall {
        id: format!("call_{name}"),
        name: name.to_string(),
        arguments: arguments.to_string(),
    }
}

#[test]
fn identical_text_three_times_still_passes() {
    let mut guard = LoopGuard::new();
    assert_eq!(guard.observe(&vec![text_block("你好")]), LoopVerdict::Continue);
    assert_eq!(guard.observe(&vec![text_block("你好")]), LoopVerdict::Continue);
    assert_eq!(guard.observe(&vec![text_block("你好")]), LoopVerdict::Warn { repeats: 3 });
}

#[test]
fn identical_text_fourth_time_triggers() {
    let mut guard = LoopGuard::new();
    for _ in 0..3 {
        let _ = guard.observe(&vec![text_block("你好")]);
    }
    assert_eq!(guard.observe(&vec![text_block("你好")]), LoopVerdict::Block { repeats: 4 });
}

#[test]
fn text_normalizes_surrounding_whitespace() {
    let mut guard = LoopGuard::new();
    assert_eq!(guard.observe(&vec![text_block("你好\n")]), LoopVerdict::Continue);
    assert_eq!(guard.observe(&vec![text_block("  你好")]), LoopVerdict::Continue);
    assert_eq!(guard.observe(&vec![text_block("你好 ")]), LoopVerdict::Warn { repeats: 3 });
    assert_eq!(guard.observe(&vec![text_block("你好")]), LoopVerdict::Block { repeats: 4 });
}

#[test]
fn different_text_resets_the_run() {
    let mut guard = LoopGuard::new();
    assert_eq!(guard.observe(&vec![text_block("A")]), LoopVerdict::Continue);
    assert_eq!(guard.observe(&vec![text_block("A")]), LoopVerdict::Continue);
    assert_eq!(guard.observe(&vec![text_block("B")]), LoopVerdict::Continue);
    assert_eq!(guard.observe(&vec![text_block("A")]), LoopVerdict::Continue);
    assert_eq!(guard.observe(&vec![text_block("A")]), LoopVerdict::Continue);
    assert_eq!(guard.observe(&vec![text_block("A")]), LoopVerdict::Warn { repeats: 3 });
    assert_eq!(guard.observe(&vec![text_block("A")]), LoopVerdict::Block { repeats: 4 });
}

#[test]
fn identical_tool_calls_fourth_time_triggers_even_with_varying_text() {
    let mut guard = LoopGuard::new();
    let call = vec![text_block("我看看"), tool_block("bash", r#"{"command":"ls"}"#)];
    for _ in 0..3 {
        let _ = guard.observe(&call);
    }
    assert_eq!(guard.observe(&call), LoopVerdict::Block { repeats: 4 });
}

#[test]
fn same_tools_with_varying_text_still_trigger_on_tool_line() {
    let mut guard = LoopGuard::new();
    for round in 0..4 {
        let blocks = vec![
            text_block(&format!("第 {round} 次尝试说明")),
            tool_block("read_file", r#"{"path":"a.rs"}"#),
        ];
        let hit = guard.observe(&blocks);
        match round {
            3 => assert_eq!(hit, LoopVerdict::Block { repeats: 4 }),
            2 => assert_eq!(hit, LoopVerdict::Warn { repeats: 3 }),
            _ => assert_eq!(hit, LoopVerdict::Continue),
        }
    }
}

#[test]
fn differing_arguments_do_not_trigger() {
    let mut guard = LoopGuard::new();
    for i in 0..5 {
        let blocks = vec![tool_block("bash", &format!(r#"{{"command":"echo {i}"}}"#))];
        assert_eq!(guard.observe(&blocks), LoopVerdict::Continue, "iteration {i}");
    }
}

#[test]
fn empty_turns_do_not_poison_the_lines() {
    let mut guard = LoopGuard::new();
    assert_eq!(guard.observe(&vec![text_block("A")]), LoopVerdict::Continue);
    assert_eq!(guard.observe(&vec![text_block("A")]), LoopVerdict::Continue);
    assert_eq!(guard.observe(&vec![]), LoopVerdict::Continue);
    assert_eq!(guard.observe(&vec![text_block("A")]), LoopVerdict::Warn { repeats: 3 });
    assert_eq!(guard.observe(&vec![text_block("A")]), LoopVerdict::Block { repeats: 4 });
}

#[test]
fn reset_clears_everything() {
    let mut guard = LoopGuard::new();
    assert_eq!(guard.observe(&vec![text_block("A")]), LoopVerdict::Continue);
    assert_eq!(guard.observe(&vec![text_block("A")]), LoopVerdict::Continue);
    guard.reset();
    assert_eq!(guard.observe(&vec![text_block("A")]), LoopVerdict::Continue);
}

#[test]
fn reordered_object_keys_are_the_same_signature() {
    let a = vec![tool_block("read_file", r#"{"path":"a.rs","limit":10}"#)];
    let b = vec![tool_block("read_file", r#"{"limit":10,"path":"a.rs"}"#)];
    assert_eq!(tool_signature(&a), tool_signature(&b));
}

#[test]
fn nested_object_keys_are_normalized() {
    let a = vec![tool_block("x", r#"{"a":{"y":1,"x":2},"b":3}"#)];
    let b = vec![tool_block("x", r#"{"b":3,"a":{"x":2,"y":1}}"#)];
    assert_eq!(tool_signature(&a), tool_signature(&b));
}

#[test]
fn array_order_is_preserved() {
    let a = vec![tool_block("x", r#"{"v":[1,2]}"#)];
    let b = vec![tool_block("x", r#"{"v":[2,1]}"#)];
    assert_ne!(tool_signature(&a), tool_signature(&b));
}

#[test]
fn reordered_keys_reach_the_block_threshold() {
    let mut guard = LoopGuard::new();
    let variants = [r#"{"path":"a.rs","limit":10}"#, r#"{"limit":10,"path":"a.rs"}"#];
    let mut last = LoopVerdict::Continue;
    for i in 0..4 {
        last = guard.observe(&vec![tool_block("read_file", variants[i % 2])]);
    }
    assert_eq!(last, LoopVerdict::Block { repeats: 4 });
}

#[test]
fn invalid_json_falls_back_to_whitespace_normalization() {
    let a = vec![tool_block("x", "{ broken  json")];
    let b = vec![tool_block("x", "{  broken json")];
    assert_eq!(tool_signature(&a), tool_signature(&b));
}

#[test]
fn different_values_stay_different() {
    let a = vec![tool_block("read_file", r#"{"path":"a.rs"}"#)];
    let b = vec![tool_block("read_file", r#"{"path":"b.rs"}"#)];
    assert_ne!(tool_signature(&a), tool_signature(&b));
}

#[test]
fn arguments_are_written_with_their_keys_in_order() {
    assert_eq!(normalize_arguments(r#" { "b" : 2, "a" : [ 1, null, "x\n" ] } "#), r#"{"a":[1,null,"x\n"],"b":2}"#);
    assert_eq!(normalize_arguments("not  json"), strip_spaces("not  json"));
    assert_eq!(normalized_as("ignored", &Some(Json::Bool(true))), "true");
}

#[test]
fn text_of_an_answer_is_trimmed() {
    assert_eq!(normalized_text(&vec![text_block("  a "), text_block("b\n")]), "a b");
}
