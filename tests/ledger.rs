use homebank_db::budget::{sum_transactions, QueryBudget};
use homebank_db::codes::{PayMode, TransactionStatus, TransactionType};
use homebank_db::config::{default_cfg_dir, default_cfg_file, Config, ConfigError};
use std::path::PathBuf;
use homebank_db::date::Date;
use homebank_db::ledger::{Account, Category, HomeBankDb, Payee};
use homebank_db::pattern::{Pattern, TextFilter};
use homebank_db::query::QueryTransactions;
use homebank_db::records::RecordError;
use homebank_db::transaction::{Attribute, Transaction};

fn date(year: i32, month: u32, day: u32) -> Date {
    Date { year, month, day }
}

fn flat_budget(amount: i64) -> Vec<Option<i64>> {
    let mut b = vec![None; 13];
    b[0] = Some(amount);
    b
}

fn category(id: usize, name: &str, parent: Option<usize>, budget: Vec<Option<i64>>) -> Category {
    Category {
        id,
        name: name.to_string(),
        parent,
        budget,
    }
}

fn transaction(d: Date, amount: i64, category: Option<usize>, payee: Option<usize>) -> Transaction {
    Transaction {
        date: d,
        amount,
        account: 1,
        pay_mode: PayMode::Unspecified,
        status: TransactionStatus::Unspecified,
        flags: None,
        payee,
        category,
        memo: None,
        info: None,
        tags: None,
        transaction_type: if amount > 0 {
            TransactionType::Income
        } else {
            TransactionType::Expense
        },
    }
}

fn empty_query() -> QueryTransactions {
    QueryTransactions::new(None, None, None, None, None, None, None, None, None, None, None, None)
}

fn sample_db() -> HomeBankDb {
    let mut db = HomeBankDb::new();
    db.add_account(Account {
        id: 1,
        name: "Checking".to_string(),
        currency: 1,
        group: None,
    });
    db.add_payee(Payee {
        id: 1,
        name: "Corner Shop".to_string(),
    });
    db.add_payee(Payee {
        id: 2,
        name: "Gas Station".to_string(),
    });
    db.add_category(category(1, "Bills", None, flat_budget(10000)));
    db.add_category(category(2, "Auto", None, flat_budget(5000)));
    db.add_category(category(3, "Gas", Some(1), flat_budget(2000)));
    db.add_category(category(4, "Misc", None, vec![None; 13]));
    db.add_transaction(transaction(date(2020, 3, 1), -1000, Some(1), Some(1)));
    db.add_transaction(transaction(date(2020, 3, 15), -2500, Some(3), Some(2)));
    db.add_transaction(transaction(date(2020, 4, 1), -700, Some(1), Some(1)));
    db.add_transaction(transaction(date(2020, 2, 29), 4000, Some(2), None));
    db
}

#[test]
fn new() {
    let input = "Cargo.toml";
    let expected = "Cargo.toml";
    assert_eq!(Config::new(input).path(), expected);
}

#[test]
fn default_linux_config_dir() {
    let expected = dirs::home_dir().unwrap().join(".config/hb/");
    let observed = PathBuf::from(default_cfg_dir(dirs::config_dir().as_ref().and_then(|d| d.to_str())));

    assert_eq!(expected, observed);
}

#[test]
fn default_linux_config_file() {
    let expected = dirs::home_dir().unwrap().join(".config/hb/config.toml");
    let observed = PathBuf::from(default_cfg_file(dirs::config_dir().as_ref().and_then(|d| d.to_str())));

    assert_eq!(expected, observed);
}

#[test]
fn config_checks() {
    assert_eq!(
        Config::check_source("a.toml", false, false),
        Err(ConfigError::DoesNotExist("a.toml".to_string()))
    );
    assert_eq!(
        Config::check_source("./src", true, false),
        Err(ConfigError::NotAFile("./src".to_string()))
    );
    assert_eq!(Config::check_source("a.toml", true, true), Ok(()));
    assert_eq!(Config::from_parsed(None, true), Err(ConfigError::MissingHomeBankPath));
    assert_eq!(
        Config::from_parsed(Some("x.xhb".to_string()), false),
        Err(ConfigError::HomeBankFileDoesNotExist("x.xhb".to_string()))
    );
    assert_eq!(Config::from_parsed(Some("x.xhb".to_string()), true).unwrap().path(), "x.xhb");
}

#[test]
fn default_config_file() {
    assert_eq!(default_cfg_file(Some("/home/u/.config")), "/home/u/.config/hb/config.toml");
    assert_eq!(default_cfg_file(Some("/home/u/.config/")), "/home/u/.config/hb/config.toml");
    assert_eq!(default_cfg_file(None), "~/.config/hb/config.toml");
    assert_eq!(default_cfg_dir(Some("/etc")), "/etc/hb");
}

#[test]
fn full_names_follow_parents() {
    let db = sample_db();
    assert_eq!(db.category_full_name(1), Some("Bills".to_string()));
    assert_eq!(db.category_full_name(3), Some("Bills.Gas".to_string()));
    assert_eq!(db.category_full_name(99), None);
    let t = &db.transactions[1];
    assert_eq!(t.category_name(&db), Some("Bills.Gas".to_string()));
    assert_eq!(t.payee_name(&db), Some("Gas Station".to_string()));
    assert_eq!(t.account_name(&db), Some("Checking".to_string()));
    assert_eq!(db.transactions[3].payee_name(&db), None);
}

#[test]
fn parent_cycle_has_no_full_name() {
    let mut db = HomeBankDb::new();
    db.add_category(category(1, "A", Some(2), vec![None; 13]));
    db.add_category(category(2, "B", Some(1), vec![None; 13]));
    assert_eq!(db.category_full_name(1), None);
}

#[test]
fn dangling_parent_stops_the_chain() {
    let mut db = HomeBankDb::new();
    db.add_category(category(1, "A", Some(7), vec![None; 13]));
    assert_eq!(db.category_full_name(1), Some("A".to_string()));
}

#[test]
fn insertion_replaces_same_id() {
    let mut db = HomeBankDb::new();
    db.add_payee(Payee { id: 5, name: "Old".to_string() });
    db.add_payee(Payee { id: 5, name: "New".to_string() });
    assert_eq!(db.payees.len(), 1);
    assert_eq!(db.payee_name(5), Some("New".to_string()));
    assert_eq!(db.account_name(5), None);
}

#[test]
fn date_window_is_half_open() {
    let db = sample_db();
    let mut q = empty_query();
    q.date_from = Some(date(2020, 3, 1));
    q.date_to = Some(date(2020, 4, 1));
    let r = q.exec(&db);
    assert_eq!(r.len(), 2);
    assert_eq!(r[0].date, date(2020, 3, 1));
    assert_eq!(r[1].date, date(2020, 3, 15));
}

#[test]
fn more_filters_select_fewer() {
    let db = sample_db();
    let mut f1 = empty_query();
    f1.date_from = Some(date(2020, 3, 1));
    let mut f2 = empty_query();
    f2.date_from = Some(date(2020, 3, 1));
    f2.amount_max = Some(-1500);
    let r1 = f1.exec(&db);
    let r2 = f2.exec(&db);
    assert_eq!(r1.len(), 3);
    assert_eq!(r2.len(), 1);
    assert!(r2.iter().all(|t| r1.contains(t)));
    assert_eq!(empty_query().exec(&db).len(), 4);
}

#[test]
fn name_patterns_search_resolved_names() {
    let db = sample_db();
    let mut q = empty_query();
    q.category = Some(TextFilter::Regex(Pattern::new("Gas$").unwrap()));
    let r = q.exec(&db);
    assert_eq!(r.len(), 1);
    assert_eq!(r[0].amount, -2500);
    let mut q = empty_query();
    q.payee = Some(TextFilter::Regex(Pattern::new("Shop").unwrap()));
    assert_eq!(q.exec(&db).len(), 2);
    let mut q = empty_query();
    q.category = Some(TextFilter::Regex(Pattern::new("^Bills").unwrap()));
    assert_eq!(q.exec(&db).len(), 3);
    let mut q = empty_query();
    q.category = Some(TextFilter::Exact("Bills".to_string()));
    assert_eq!(q.exec(&db).len(), 2);
}

#[test]
fn pattern_compilation() {
    assert!(Pattern::new("(").is_none());
    let p = Pattern::new("a.c").unwrap();
    assert_eq!(p.source(), "a.c");
    assert!(p.is_match("xxabcxx"));
    assert!(!p.is_match("a.c".trim_end_matches('c')));
}

#[test]
fn other_filters() {
    let db = sample_db();
    let mut q = empty_query();
    q.account = Some(2);
    assert_eq!(q.exec(&db).len(), 0);
    let mut q = empty_query();
    q.amount_min = Some(0);
    assert_eq!(q.exec(&db).len(), 1);
    let mut q = empty_query();
    q.status = Some(TransactionStatus::Cleared);
    assert_eq!(q.exec(&db).len(), 0);
    let mut q = empty_query();
    q.pay_mode = Some(PayMode::Unspecified);
    assert_eq!(q.exec(&db).len(), 4);
    let mut q = empty_query();
    q.tag = Some("x".to_string());
    assert_eq!(q.exec(&db).len(), 0);
    let mut q = empty_query();
    q.memo = Some(TextFilter::Exact("".to_string()));
    assert_eq!(q.exec(&db).len(), 0);
}

#[test]
fn sums_of_transactions() {
    let db = sample_db();
    let all = empty_query().exec(&db);
    assert_eq!(sum_transactions(&all), -1000 - 2500 - 700 + 4000);
}

#[test]
fn budget_rows_sorted_by_full_name() {
    let db = sample_db();
    let q = QueryBudget::new(None, date(2020, 3, 1), date(2020, 4, 1));
    let rows = q.exec(&db);
    let names: Vec<&str> = rows.iter().map(|r| r.0.as_str()).collect();
    assert_eq!(names, vec!["Auto", "Bills", "Bills.Gas"]);
    assert_eq!(rows[0], ("Auto".to_string(), 0, Some(5000)));
    assert_eq!(rows[1], ("Bills".to_string(), -1000, Some(10000)));
    assert_eq!(rows[2], ("Bills.Gas".to_string(), -2500, Some(2000)));
}

#[test]
fn budget_name_pattern() {
    let db = sample_db();
    let q = QueryBudget::new(Some(Pattern::new("Gas").unwrap()), date(2020, 3, 1), date(2020, 4, 1));
    let rows = q.exec(&db);
    assert_eq!(rows, vec![("Bills.Gas".to_string(), -2500, Some(2000))]);
}

#[test]
fn budget_end_to_end() {
    let mut db = HomeBankDb::new();
    db.add_account(Account {
        id: 1,
        name: "Checking".to_string(),
        currency: 1,
        group: None,
    });
    db.add_category(category(1, "Groceries", None, flat_budget(20000)));
    db.add_transaction(transaction(date(2020, 3, 5), -5000, Some(1), None));
    db.add_transaction(transaction(date(2020, 3, 20), -3000, Some(1), None));
    let q = QueryBudget::new(None, date(2020, 3, 1), date(2020, 4, 1));
    let rows = q.exec(&db);
    assert_eq!(rows, vec![("Groceries".to_string(), -8000, Some(20000))]);
}

#[test]
fn allotment_over_months() {
    let mut monthly = vec![None; 13];
    monthly[1] = Some(100);
    monthly[2] = Some(200);
    monthly[12] = Some(1200);
    let c = category(1, "C", None, monthly);
    // January and February, the second only in part
    assert_eq!(c.budget_amount_over_interval(date(2020, 1, 15), date(2020, 2, 10)), Some(300));
    // January only: the window ends on the first of February
    assert_eq!(c.budget_amount_over_interval(date(2020, 1, 1), date(2020, 2, 1)), Some(100));
    // December into January
    assert_eq!(c.budget_amount_over_interval(date(2019, 12, 1), date(2020, 2, 1)), Some(1300));
    // March has no entry
    assert_eq!(c.budget_amount_over_interval(date(2020, 3, 1), date(2020, 4, 1)), None);
    // an empty window
    assert_eq!(c.budget_amount_over_interval(date(2020, 3, 1), date(2020, 3, 1)), None);
    let f = category(2, "F", None, flat_budget(50));
    assert_eq!(f.budget_amount_over_interval(date(2020, 1, 1), date(2021, 1, 1)), Some(600));
    assert!(f.has_budget());
    assert!(!category(3, "N", None, vec![None; 13]).has_budget());
}

fn attr(name: &str, value: &str) -> Attribute {
    Attribute {
        name: name.to_string(),
        value: value.to_string(),
    }
}

#[test]
fn categories_from_records() {
    let c = Category::try_from(vec![
        attr("key", "3"),
        attr("parent", "1"),
        attr("name", "Gas"),
        attr("b0", "20"),
        attr("b12", "x"),
    ])
    .unwrap();
    assert_eq!(c.id, 3);
    assert_eq!(c.parent, Some(1));
    assert_eq!(c.name, "Gas");
    assert_eq!(c.budget[0], Some(2000));
    assert_eq!(c.budget[12], None);
    assert_eq!(c.budget.len(), 13);
    let root = Category::try_from(vec![attr("key", "1"), attr("parent", "0"), attr("name", "A")]).unwrap();
    assert_eq!(root.parent, None);
    assert_eq!(Category::try_from(vec![attr("name", "A")]), Err(RecordError::MissingKey));
    assert_eq!(Category::try_from(vec![attr("key", "1")]), Err(RecordError::MissingName));
}

#[test]
fn accounts_and_payees_from_records() {
    let a = Account::try_from(vec![attr("key", "1"), attr("name", "Checking"), attr("curr", "2")]).unwrap();
    assert_eq!(a.id, 1);
    assert_eq!(a.name, "Checking");
    assert_eq!(a.currency, 2);
    assert_eq!(a.group, None);
    assert_eq!(
        Account::try_from(vec![attr("key", "1"), attr("name", "")]),
        Err(RecordError::MissingName)
    );
    let p = Payee::try_from(vec![attr("name", "Shop"), attr("key", "4")]).unwrap();
    assert_eq!(p.id, 4);
    assert_eq!(Payee::try_from(vec![attr("key", "x"), attr("name", "Shop")]), Err(RecordError::MissingKey));
}
