use std::collections::HashSet;

use ledger_ls::document::Ledger;
use ledger_ls::node::NodeKind;
use ledger_ls::position::{in_range, point_in_span, Point, Position};

fn loaded(s: &str) -> Ledger {
    let mut ledger = Ledger::new();
    ledger.process_text(&s.as_bytes().to_vec());
    ledger
}

fn pos(line: u32, character: u32) -> Position {
    Position { line, character }
}

fn to_strings(v: Vec<Vec<u8>>) -> HashSet<String> {
    v.into_iter().map(|b| String::from_utf8(b).unwrap()).collect()
}

#[test]
fn in_range_tests_lines_and_columns_independently() {
    let start = Point { row: 0, column: 4 };
    let end = Point { row: 2, column: 6 };
    // inside on every component
    assert!(in_range(pos(1, 5), start, end));
    // line inside, column below the start column: refused even on a middle
    // row — the bounds are tested component-wise, not as a 2D range
    assert!(!in_range(pos(1, 2), start, end));
    // line past the end row: refused whatever the column
    assert!(!in_range(pos(3, 5), start, end));
    // bounds are inclusive on both ends
    assert!(in_range(pos(0, 4), start, end));
    assert!(in_range(pos(2, 6), start, end));
}

#[test]
fn point_in_span_is_an_ordered_range_check() {
    let start = Point { row: 0, column: 4 };
    let end = Point { row: 2, column: 3 };
    // before the start column on the start row: outside
    assert!(!point_in_span(pos(0, 3), start, end));
    // anywhere on a middle row: inside
    assert!(point_in_span(pos(1, 0), start, end));
    // on the end row up to the end column: inside
    assert!(point_in_span(pos(2, 3), start, end));
    assert!(!point_in_span(pos(2, 4), start, end));
}

#[test]
fn fresh_ledger_is_unloaded_until_text_arrives() {
    let mut ledger = Ledger::new();
    assert!(!ledger.is_loaded());
    ledger.process_text(&b"".to_vec());
    assert!(ledger.is_loaded());
    assert_eq!(ledger.current_text().len(), 0);
}

#[test]
fn empty_document_has_only_the_root_node() {
    let ledger = loaded("");
    let nodes = ledger.traverse_ast();
    assert_eq!(nodes.len(), 1);
    assert_eq!(nodes[0].kind, NodeKind::Other);
    assert_eq!(ledger.classify(pos(0, 0)), None);
    assert!(ledger.prepare_rename(pos(0, 0)).is_none());
    assert!(to_strings(ledger.get_accounts(pos(0, 0))).is_empty());
}

#[test]
fn the_root_node_spans_the_whole_text() {
    let text = "2025-01-01 Foo\n\tAssets:Wallet\n";
    let ledger = loaded(text);
    assert_eq!(ledger.node_count(), 4);
    let root = ledger.get_node(0);
    assert_eq!(root.start_byte, 0);
    assert_eq!(root.end_byte, text.len());
    assert_eq!(root.start, Point { row: 0, column: 0 });
    assert_eq!(root.end, Point { row: 2, column: 0 });
}

#[test]
fn node_spans_are_exact() {
    let ledger = loaded("2025-01-01 Test Payerr\n\tExpenses:Dinner\t$12.00\n");
    let date = ledger.get_node(1);
    assert_eq!(date.kind, NodeKind::Other);
    assert_eq!((date.start_byte, date.end_byte), (0, 10));
    let payee = ledger.get_node(2);
    assert_eq!(payee.kind, NodeKind::Payee);
    assert_eq!((payee.start_byte, payee.end_byte), (11, 22));
    assert_eq!(payee.start, Point { row: 0, column: 11 });
    assert_eq!(payee.end, Point { row: 0, column: 22 });
    let account = ledger.get_node(3);
    assert_eq!(account.kind, NodeKind::Account);
    assert_eq!(account.start, Point { row: 1, column: 1 });
    assert_eq!(account.end, Point { row: 1, column: 16 });
}

#[test]
fn collect_deduplicates_equal_symbols() {
    let ledger = loaded("2025-01-01 A\n\tAssets:Wallet\n2025-01-02 B\n\tAssets:Wallet\n");
    let accounts = ledger.get_accounts(pos(90, 90));
    assert_eq!(accounts.len(), 1);
    assert_eq!(accounts[0], b"Assets:Wallet".to_vec());
}

#[test]
fn duplicate_symbol_is_still_offered_from_its_other_occurrence() {
    // the occurrence under the cursor is excluded, but an equal symbol
    // elsewhere still carries the same text into the result
    let ledger = loaded("2025-01-01 A\n\tAssets:Wallet\n2025-01-02 B\n\tAssets:Wallet\n");
    let accounts = to_strings(ledger.get_accounts(pos(1, 3)));
    assert!(accounts.contains("Assets:Wallet"));
}

#[test]
fn status_mark_is_skipped_before_the_payee() {
    let ledger = loaded("2025-01-01 * Grocer\n\tAssets:Wallet\n");
    let payees = to_strings(ledger.get_payees(pos(90, 90)));
    let mut expected = HashSet::new();
    expected.insert("Grocer".to_string());
    assert_eq!(payees, expected);
}

#[test]
fn comment_posting_has_no_account() {
    let ledger = loaded("2025-01-01 Foo\n\t; a note, not an account\n\tAssets:Wallet\n");
    let accounts = to_strings(ledger.get_accounts(pos(90, 90)));
    let mut expected = HashSet::new();
    expected.insert("Assets:Wallet".to_string());
    assert_eq!(accounts, expected);
}

#[test]
fn account_keeps_single_spaces_and_ends_at_a_double_space() {
    let ledger = loaded("2025-01-01 X\n\tAssets:Bank Checking  $5\n");
    let accounts = ledger.get_accounts(pos(90, 90));
    assert_eq!(accounts.len(), 1);
    assert_eq!(accounts[0], b"Assets:Bank Checking".to_vec());
}
