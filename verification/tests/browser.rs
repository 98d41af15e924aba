use denia::browser::lifecycle::{is_superseded, may_take_inner, should_reap};
use denia::browser::target::{escape_js_string, normalize_target, pick_target};

#[test]
fn matching_live_and_exit_reaps() {
    assert!(should_reap(3, 3, 3));
    assert!(!is_superseded(3, 3));
}

#[test]
fn leftover_exit_signal_must_not_kill_fresh_instance() {
    assert!(!should_reap(2, 2, 0));
    assert!(!should_reap(2, 2, 1));
    assert!(may_take_inner(Some(2), Some(2)));
    assert!(!may_take_inner(Some(2), Some(1)));
}

#[test]
fn stale_watchdog_does_not_reap_newer_instance() {
    assert!(!should_reap(1, 2, 1));
    assert!(is_superseded(1, 2));
    assert!(!may_take_inner(Some(2), Some(1)));
}

#[test]
fn empty_slot_is_never_taken() {
    assert!(!may_take_inner(None, None));
    assert!(!may_take_inner(None, Some(1)));
    assert!(!should_reap(1, 0, 1));
    assert!(is_superseded(1, 0));
}

#[test]
fn explicit_cleanup_takes_whatever_is_live() {
    assert!(may_take_inner(Some(4), None));
}

#[test]
fn bare_ref_uses_aria_ref_engine() {
    assert_eq!(normalize_target("e6"), "aria-ref=e6");
    assert_eq!(normalize_target("e123"), "aria-ref=e123");
}

#[test]
fn at_prefixed_ref_is_accepted() {
    assert_eq!(normalize_target("@e6"), "aria-ref=e6");
    assert_eq!(normalize_target(" @e6 "), "aria-ref=e6");
}

#[test]
fn selectors_pass_through_untouched() {
    assert_eq!(normalize_target("#submit"), "#submit");
    assert_eq!(normalize_target(".btn.primary"), ".btn.primary");
    assert_eq!(normalize_target("text=登录"), "text=登录");
    assert_eq!(normalize_target("getByRole('button')"), "getByRole('button')");
}

#[test]
fn e_prefixed_non_numeric_is_not_a_ref() {
    assert_eq!(normalize_target("em"), "em");
    assert_eq!(normalize_target("entry-row"), "entry-row");
    assert_eq!(normalize_target("e"), "e");
}

#[test]
fn pick_target_prefers_ref_over_locator() {
    assert_eq!(pick_target(Some("e6"), Some("#x")).as_deref(), Some("aria-ref=e6"));
    assert_eq!(pick_target(None, Some("#x")).as_deref(), Some("#x"));
    assert_eq!(pick_target(None, None), None);
}

#[test]
fn escape_handles_quotes_and_newlines() {
    assert_eq!(escape_js_string("a'b"), "a\\'b");
    assert_eq!(escape_js_string("a\nb"), "a\\nb");
    assert_eq!(escape_js_string("a\\b"), "a\\\\b");
}
