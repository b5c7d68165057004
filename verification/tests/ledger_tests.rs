use std::collections::HashSet;

use ledger_ls::document::Ledger;
use ledger_ls::position::Position;

fn to_strings(v: Vec<Vec<u8>>) -> HashSet<String> {
    v.into_iter().map(|b| String::from_utf8(b).unwrap()).collect()
}

#[test]
fn get_all_accounts() {
    // arrange
    let s = "2025-01-01 Test Payerr\n\tExpenses:Dinner\t$12.00\n\tAssets:Wallet\n".to_string();
    let mut ledger = Ledger::new();

    // act
    ledger.process_text(&s.as_bytes().to_vec());
    let a: HashSet<String> = to_strings(ledger.get_accounts(Position { line: 0, character: 0 }));

    // assert
    assert_eq!(
        a,
        HashSet::from_iter::<Vec<String>>(vec![
            "Expenses:Dinner".to_string(),
            "Assets:Wallet".to_string()
        ])
    );
}

#[test]
fn get_all_payees() {
    // arrange
    let s = "2025-01-01 Test Payerr\n\tExpenses:Dinner\t$12.00\n\tAssets:Wallet\n".to_string();
    let mut ledger = Ledger::new();

    // act
    ledger.process_text(&s.as_bytes().to_vec());
    let a: HashSet<String> = to_strings(ledger.get_payees(Position { line: 0, character: 0 }));

    // assert
    assert_eq!(
        a,
        HashSet::from_iter::<Vec<String>>(vec!["Test Payerr".to_string()])
    );
}
