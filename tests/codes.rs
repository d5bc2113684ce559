use homebank_db::codes::{PayMode, TransactionStatus};
use homebank_db::ledger::{Currency, Group, HomeBankDb, Category};
use homebank_db::codes::GroupStatus;
use homebank_db::pattern::Pattern;
use homebank_db::query::{QueryCategories, QueryGroups};
use homebank_db::records::{LoadError, RecordError};
use homebank_db::transaction::TransactionError;
use homebank_db::transaction::Attribute;

#[test]
fn pay_mode_codes_and_names() {
    for c in 0..=10usize {
        let p = PayMode::from_code(c).unwrap();
        assert_eq!(p.code(), c);
        assert_eq!(PayMode::from_name(p.name()), Some(p));
    }
    assert_eq!(PayMode::from_code(11), None);
    assert_eq!(PayMode::from_code(4), Some(PayMode::BankTransfer));
    assert_eq!(PayMode::from_name("Cash"), Some(PayMode::Cash));
    assert_eq!(PayMode::from_name("None"), Some(PayMode::Unspecified));
    assert_eq!(PayMode::from_name("cash"), None);
}

#[test]
fn status_codes_and_names() {
    for c in 0..=4usize {
        let s = TransactionStatus::from_code(c).unwrap();
        assert_eq!(s.code(), c);
        assert_eq!(TransactionStatus::from_name(s.name()), Some(s));
    }
    assert_eq!(TransactionStatus::from_code(5), None);
    assert_eq!(TransactionStatus::from_name("Void"), Some(TransactionStatus::Void));
    assert_eq!(TransactionStatus::from_name("void"), None);
}

fn attr(name: &str, value: &str) -> Attribute {
    Attribute {
        name: name.to_string(),
        value: value.to_string(),
    }
}

#[test]
fn currencies_from_records() {
    let c = Currency::try_from(vec![attr("key", "1"), attr("name", "Euro"), attr("frac", "2")]).unwrap();
    assert_eq!(c.id, 1);
    assert_eq!(c.name, "Euro");
    assert_eq!(c.precision, 2);
    let c = Currency::try_from(vec![attr("key", "2"), attr("name", "Yen")]).unwrap();
    assert_eq!(c.precision, 0);
    assert_eq!(Currency::try_from(vec![attr("key", "2")]), Err(RecordError::MissingName));
}

#[test]
fn category_and_group_queries() {
    let mut db = HomeBankDb::new();
    db.add_category(Category { id: 1, name: "Bills".to_string(), parent: None, budget: vec![None; 13] });
    db.add_category(Category { id: 2, name: "Gas".to_string(), parent: Some(1), budget: vec![None; 13] });
    db.add_category(Category { id: 3, name: "Food".to_string(), parent: None, budget: vec![None; 13] });
    db.add_group(Group { id: 1, name: "Daily".to_string(), status: GroupStatus::Active });
    db.add_group(Group { id: 2, name: "Old".to_string(), status: GroupStatus::Archived });
    let all = QueryCategories::new(None).exec(&db);
    assert_eq!(all.len(), 3);
    let bills = QueryCategories::new(Some(Pattern::new("^Bills").unwrap())).exec(&db);
    let ids: Vec<usize> = bills.iter().map(|c| c.id).collect();
    assert_eq!(ids, vec![1, 2]);
    let groups = QueryGroups::new(Some(Pattern::new("ld").unwrap())).exec(&db);
    assert_eq!(groups.len(), 1);
    assert_eq!(groups[0].status, GroupStatus::Archived);
    assert_eq!(QueryGroups::new(None).exec(&db).len(), 2);
    db.add_currency(Currency { id: 1, name: "Euro".to_string(), precision: 2 });
    assert_eq!(db.currencies.len(), 1);
}

#[test]
fn records_fill_the_ledger() {
    let mut db = HomeBankDb::new();
    assert_eq!(db.add_record("account", vec![attr("key", "1"), attr("name", "Checking")]), Ok(()));
    assert_eq!(db.add_record("cat", vec![attr("key", "1"), attr("name", "Groceries"), attr("b0", "200")]), Ok(()));
    assert_eq!(db.add_record("pay", vec![attr("key", "2"), attr("name", "Shop")]), Ok(()));
    assert_eq!(db.add_record("cur", vec![attr("key", "1"), attr("name", "Euro")]), Ok(()));
    assert_eq!(db.add_record("properties", vec![attr("title", "x")]), Ok(()));
    assert_eq!(
        db.add_record(
            "ope",
            vec![attr("date", "737485"), attr("amount", "-50.0"), attr("account", "1"), attr("paymode", "3"), attr("category", "1")]
        ),
        Ok(())
    );
    assert_eq!(
        db.add_record("ope", vec![attr("amount", "-1")]),
        Err(LoadError::Transaction(TransactionError::MissingAccount))
    );
    assert_eq!(db.add_record("pay", vec![attr("name", "x")]), Err(LoadError::Record(RecordError::MissingKey)));
    assert_eq!(db.transactions.len(), 1);
    assert_eq!(db.transactions[0].category_name(&db), Some("Groceries".to_string()));
    assert_eq!(db.account_name(1), Some("Checking".to_string()));
    assert_eq!(db.payee_name(2), Some("Shop".to_string()));
    assert_eq!(db.categories[0].budget[0], Some(20000));
}
