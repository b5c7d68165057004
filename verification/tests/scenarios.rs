use std::collections::HashSet;

use ledger_ls::document::Ledger;
use ledger_ls::node::NodeKind;
use ledger_ls::position::Position;
use ledger_ls::rename::TextEdit;

const SAMPLE: &str = "2025-01-01 Test Payerr\n\tExpenses:Dinner\t$12.00\n\tAssets:Wallet\n";

fn loaded(s: &str) -> Ledger {
    let mut ledger = Ledger::new();
    ledger.process_text(&s.as_bytes().to_vec());
    ledger
}

fn pos(line: u32, character: u32) -> Position {
    Position { line, character }
}

fn to_strings(v: Vec<Vec<u8>>) -> HashSet<String> {
    v.into_iter().map(|b| String::from_utf8(b).unwrap()).collect()
}

fn set_of(names: &[&str]) -> HashSet<String> {
    names.iter().map(|s| s.to_string()).collect()
}

/// Byte offset of a (row, column) point of `text`.
fn offset_of(text: &[u8], row: usize, column: usize) -> usize {
    let mut starts = vec![0usize];
    for (i, b) in text.iter().enumerate() {
        if *b == b'\n' {
            starts.push(i + 1);
        }
    }
    starts[row] + column
}

/// Apply edits (in traversal order, so applied back to front) to `text`,
/// reading each range as start-inclusive, end-exclusive.
fn apply_edits(text: &[u8], edits: &[TextEdit]) -> Vec<u8> {
    let mut out = text.to_vec();
    for e in edits.iter().rev() {
        let a = offset_of(text, e.range.start.row, e.range.start.column);
        let b = offset_of(text, e.range.end.row, e.range.end.column);
        out.splice(a..b, e.new_text.iter().cloned());
    }
    out
}

#[test]
fn collect_far_away_position_sees_every_symbol() {
    let ledger = loaded(SAMPLE);
    let accounts = to_strings(ledger.get_accounts(pos(90, 90)));
    assert_eq!(accounts, set_of(&["Expenses:Dinner", "Assets:Wallet"]));
    let payees = to_strings(ledger.get_payees(pos(90, 90)));
    assert_eq!(payees, set_of(&["Test Payerr"]));
}

#[test]
fn collect_excludes_the_account_under_the_cursor() {
    let ledger = loaded(SAMPLE);
    // cursor inside "Expenses:Dinner" (row 1, columns 1..16)
    let accounts = to_strings(ledger.get_accounts(pos(1, 5)));
    assert_eq!(accounts, set_of(&["Assets:Wallet"]));
}

#[test]
fn classify_inside_each_symbol_kind() {
    let ledger = loaded(SAMPLE);
    assert_eq!(ledger.classify(pos(1, 5)), Some(NodeKind::Account));
    assert_eq!(ledger.classify(pos(0, 15)), Some(NodeKind::Payee));
}

#[test]
fn prepare_rename_reports_text_and_widened_range() {
    let ledger = loaded(SAMPLE);
    // cursor inside "Assets:Wallet" (row 2, columns 1..14)
    let p = ledger.prepare_rename(pos(2, 5)).unwrap();
    assert_eq!(p.placeholder, b"Assets:Wallet".to_vec());
    assert_eq!(p.range.start.row, 2);
    assert_eq!(p.range.start.column, 1);
    assert_eq!(p.range.end.row, 2);
    // the end column is the node's true end column plus one
    assert_eq!(p.range.end.column, 15);
}

const TWO_XACTS: &str = "2025-01-01 Foo\n\tExpenses:Dinner\t$12.00\n\tAssets:Wallet\n2025-01-02 Bar\n\tExpenses:Lunch\t$5.00\n\tAssets:Wallet\n";

#[test]
fn rename_touches_every_occurrence() {
    let ledger = loaded(TWO_XACTS);
    // "Assets:Wallet" occurs on rows 2 and 5; rename at either occurrence
    for p in [pos(2, 3), pos(5, 3)] {
        let edits = ledger.rename(p, &b"Assets:Cash".to_vec()).unwrap();
        assert_eq!(edits.len(), 2);
        for e in &edits {
            assert_eq!(e.new_text, b"Assets:Cash".to_vec());
        }
        assert_eq!(edits[0].range.start.row, 2);
        assert_eq!(edits[1].range.start.row, 5);
    }
}

#[test]
fn rename_to_same_name_is_noop_per_occurrence() {
    let ledger = loaded(TWO_XACTS);
    let edits = ledger.rename(pos(2, 3), &b"Assets:Wallet".to_vec()).unwrap();
    assert_eq!(edits.len(), 2);
    for e in &edits {
        assert_eq!(e.new_text, b"Assets:Wallet".to_vec());
        // each edit starts where an occurrence of the symbol stands
        assert_eq!(e.range.start.column, 1);
    }
}

#[test]
fn classify_and_prepare_refuse_date_text() {
    let ledger = loaded(SAMPLE);
    // cursor on the date of row 0: no symbol kind there
    assert_eq!(ledger.classify(pos(0, 2)), None);
    assert!(ledger.prepare_rename(pos(0, 2)).is_none());
    assert!(ledger.rename(pos(0, 2), &b"X".to_vec()).is_none());
}

const TWO_XACTS_TABBED: &str = "2025-01-01 Foo\n\tExpenses:Dinner\t$12.00\n\tAssets:Wallet\t\n2025-01-02 Bar\n\tExpenses:Lunch\t$5.00\n\tAssets:Wallet\t\n";

#[test]
fn rename_round_trip_removes_the_old_name() {
    let ledger = loaded(TWO_XACTS_TABBED);
    let edits = ledger.rename(pos(2, 3), &b"Assets:Cash".to_vec()).unwrap();
    assert_eq!(edits.len(), 2);
    let edited = apply_edits(TWO_XACTS_TABBED.as_bytes(), &edits);
    let reparsed = loaded(&String::from_utf8(edited).unwrap());
    let accounts = to_strings(reparsed.get_accounts(pos(90, 90)));
    assert!(!accounts.contains("Assets:Wallet"));
    assert!(accounts.contains("Assets:Cash"));
    assert_eq!(
        accounts,
        set_of(&["Expenses:Dinner", "Expenses:Lunch", "Assets:Cash"])
    );
}
