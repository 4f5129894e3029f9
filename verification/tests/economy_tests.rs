use gamehub::multi_economy::{MoneyKeyUpdate, MultiMoney, MultiMoneySqlite, MultiPlayerMoney, money_names};
use gamehub::single_economy::SingleMoneySqlite;

#[test]
fn single_ledger_stores_the_negated_allowance() {
    let mut ledger = SingleMoneySqlite::init(200);
    assert_eq!(ledger.debt_limit, -200);
    ledger._setdebt_limit(50);
    assert_eq!(ledger.debt_limit, -50);
}

#[test]
fn single_deposit_and_withdrawal() {
    let ledger = SingleMoneySqlite::init(200);
    assert_eq!(ledger.add_pl_money(100, 25), 125);
    assert_eq!(ledger.reduce_pl_money(100, 25), 75);
    assert_eq!(ledger.reduce_pl_money(0, 25), -25);
}

// A single-ledger transfer is refused once the sender stands at or below
// the debt floor.
#[test]
fn single_transfer_respects_the_debt_floor() {
    let ledger = SingleMoneySqlite::init(200);
    assert_eq!(ledger.transfer_pl_money(-200, 0, 10), None);
    assert_eq!(ledger.transfer_pl_money(-300, 0, 10), None);
    assert_eq!(ledger.transfer_pl_money(-199, 5, 10), Some((-209, 15)));
    assert_eq!(ledger.transfer_pl_money(100, 20, 30), Some((70, 50)));
}

// A refused transfer does no arithmetic: any amount, even one whose
// subtraction would overflow, is refused cleanly.
#[test]
fn refused_transfer_ignores_the_amount_entirely() {
    let single = SingleMoneySqlite::init(200);
    assert_eq!(single.transfer_pl_money(-200, 0, i32::MAX), None);
    let multi = MultiMoneySqlite::default();
    assert_eq!(multi.transfer_pl_money(-201, 0, i32::MAX), None);
}

#[test]
fn multi_ledger_defaults() {
    let ledger = MultiMoneySqlite::default();
    assert_eq!(ledger.default_economy, "money");
    assert_eq!(ledger.debt_limit, -200);
}

// The multi-ledger transfer allows a sender exactly at the floor.
#[test]
fn multi_transfer_allows_the_floor_itself() {
    let ledger = MultiMoneySqlite::default();
    assert_eq!(ledger.transfer_pl_money(-200, 0, 10), Some((-210, 10)));
    assert_eq!(ledger.transfer_pl_money(-201, 0, 10), None);
    assert_eq!(ledger.add_pl_money(10, 5), 15);
    assert_eq!(ledger.reduce_pl_money(10, 5), 5);
}

#[test]
fn rename_decision_covers_all_three_cases() {
    let ledger = MultiMoneySqlite::default();
    assert!(matches!(ledger.update_money_key(true, false), MoneyKeyUpdate::Proceed));
    assert!(matches!(ledger.update_money_key(true, true), MoneyKeyUpdate::Proceed));
    assert!(matches!(ledger.update_money_key(false, true), MoneyKeyUpdate::NameTaken));
    assert!(matches!(ledger.update_money_key(false, false), MoneyKeyUpdate::NotFound));
}

#[test]
fn money_names_lists_each_economy_in_order() {
    let moneys = vec![
        MultiMoney { money: "gold".to_string(), key: "k1".to_string() },
        MultiMoney { money: "gems".to_string(), key: "k2".to_string() },
    ];
    assert_eq!(money_names(&moneys), vec!["gold".to_string(), "gems".to_string()]);
    assert_eq!(money_names(&Vec::new()), Vec::<String>::new());
}

#[test]
fn player_money_row_carries_its_fields() {
    let row = MultiPlayerMoney {
        uuid: "u-1".to_string(),
        money: "gold".to_string(),
        balance: 42,
    };
    assert_eq!(row.uuid, "u-1");
    assert_eq!(row.money, "gold");
    assert_eq!(row.balance, 42);
}
