use moirai::engine::cancels::CancelTable;
use moirai::text::{parse_i64, prefix_before, suffix_after, u64_text, i64_text, is_blank};
use moirai::plugin::repo_name;

#[test]
fn cancelling_a_workflow_sends_once() {
    let mut table = CancelTable::new();
    let (tx, mut rx) = tokio::sync::oneshot::channel::<()>();
    table.register("wf-1".to_string(), tx);
    assert!(table.cancel_workflow("wf-1"));
    assert!(rx.try_recv().is_ok());
    assert!(!table.cancel_workflow("wf-1"));
    assert!(!table.cancel_workflow("other"));
}

#[test]
fn cancelling_all_workflows_empties_the_table() {
    let mut table = CancelTable::new();
    let (tx1, mut rx1) = tokio::sync::oneshot::channel::<()>();
    let (tx2, mut rx2) = tokio::sync::oneshot::channel::<()>();
    table.register("a".to_string(), tx1);
    table.register("b".to_string(), tx2);
    table.cancel_all();
    assert!(rx1.try_recv().is_ok());
    assert!(rx2.try_recv().is_ok());
    assert!(table.senders.is_empty());
}

#[test]
fn texts_and_numbers() {
    assert_eq!(parse_i64("-42"), Some(-42));
    assert_eq!(parse_i64("9223372036854775807"), Some(i64::MAX));
    assert_eq!(parse_i64("9223372036854775808"), None);
    assert_eq!(parse_i64("4x"), None);
    assert_eq!(u64_text(1234), "1234");
    assert_eq!(i64_text(-5), "-5");
    assert_eq!(prefix_before("mysys:n1", ':'), "mysys");
    assert_eq!(suffix_after("mysys:n1", ':'), "n1");
    assert!(is_blank("  \t"));
    assert!(!is_blank(" a "));
}

#[test]
fn repository_names() {
    assert_eq!(repo_name("https://github.com/acme/tools.git"), "tools");
    assert_eq!(repo_name("https://github.com/acme/tools"), "tools");
}
