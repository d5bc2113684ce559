use homebank_db::codes::{PayMode, TransactionStatus, TransactionType};
use homebank_db::date::Date;
use homebank_db::transaction::{split_tags, Attribute, Transaction, TransactionError};

fn attr(name: &str, value: &str) -> Attribute {
    Attribute {
        name: name.to_string(),
        value: value.to_string(),
    }
}

fn check_try_from_vec_ownedatt(input: Vec<Attribute>, expected: Result<Transaction, TransactionError>) {
    let observed = Transaction::try_from(input);
    assert_eq!(expected, observed);
}

/// A record with every required field, quickly
fn template_vec_ownedatt() -> Vec<Attribute> {
    vec![
        attr("account", "1"),
        attr("amount", "1"),
        // corresponds to 2020-03-11
        attr("date", "737860"),
        attr("payee", "1"),
        attr("paymode", "0"),
        attr("st", "0"),
    ]
}

/// The template without its element `i`
fn template_all_but(i: usize) -> Vec<Attribute> {
    template_vec_ownedatt()
        .iter()
        .enumerate()
        .filter(|&(j, _)| i != j)
        .map(|(_, v)| v.clone())
        .collect()
}

fn template_with(extra: Vec<Attribute>) -> Vec<Attribute> {
    let mut v = template_vec_ownedatt();
    v.extend(extra);
    v
}

#[test]
fn transaction_it_works() {
    let result = 4;
    assert_eq!(2 + 2, result);
}

#[test]
fn lib_it_works() {
    let result = 2 + 2;
    assert_eq!(result, 4);
}

#[test]
fn transaction_try_from_empty() {
    let input = vec![];
    let expected = Err(TransactionError::MissingAccount);

    check_try_from_vec_ownedatt(input, expected)
}

#[test]
fn transaction_try_from_missing_acct() {
    let input = template_all_but(0);
    let expected = Err(TransactionError::MissingAccount);

    check_try_from_vec_ownedatt(input, expected)
}

#[test]
fn transaction_try_from_missing_amount() {
    let input = template_all_but(1);
    let expected = Err(TransactionError::MissingAmount);

    check_try_from_vec_ownedatt(input, expected)
}

#[test]
fn transaction_try_from_missing_date() {
    let input = template_all_but(2);
    let expected = Err(TransactionError::MissingDate);

    check_try_from_vec_ownedatt(input, expected)
}

#[test]
#[should_panic]
fn transaction_try_from_missing_paymode() {
    // index 3 is the payee, which is optional
    let input = template_all_but(3);
    let expected = Err(TransactionError::MissingPayMode);

    check_try_from_vec_ownedatt(input, expected)
}

#[test]
#[should_panic]
fn transaction_try_from_missing_payee() {
    // index 4 is the pay mode
    let input = template_all_but(4);
    let expected = Err(TransactionError::MissingPayee);

    check_try_from_vec_ownedatt(input, expected)
}

#[test]
#[should_panic]
fn transaction_try_from_missing_status() {
    // "st" is not a known attribute; a missing status is no error
    let input = template_all_but(5);
    let expected = Err(TransactionError::InvalidStatus);

    check_try_from_vec_ownedatt(input, expected)
}

fn template_transaction() -> Transaction {
    Transaction {
        account: 1,
        amount: 100,
        category: None,
        date: Date { year: 2020, month: 3, day: 11 },
        flags: None,
        info: None,
        memo: None,
        tags: None,
        pay_mode: PayMode::Unspecified,
        payee: Some(1),
        status: TransactionStatus::Unspecified,
        transaction_type: TransactionType::Income,
    }
}

#[test]
fn transaction_try_from_template() {
    let input = template_vec_ownedatt();
    let expected = Ok(template_transaction());

    check_try_from_vec_ownedatt(input, expected)
}

#[test]
fn positive_amount_is_income() {
    let t = Transaction::try_from(template_with(vec![attr("amount", "1.0")])).unwrap();
    assert_eq!(*t.ttype(), TransactionType::Income);
}

#[test]
fn negative_amount_is_expense() {
    let t = Transaction::try_from(template_with(vec![attr("amount", "-1.0")])).unwrap();
    assert_eq!(*t.ttype(), TransactionType::Expense);
    assert_eq!(*t.amount(), -100);
}

#[test]
fn zero_amount_is_expense() {
    let t = Transaction::try_from(template_with(vec![attr("amount", "0")])).unwrap();
    assert_eq!(*t.ttype(), TransactionType::Expense);
}

#[test]
fn transfer_keeps_its_type_whatever_the_sign() {
    let t = Transaction::try_from(template_with(vec![attr("kxfer", "7"), attr("amount", "1.0")])).unwrap();
    assert_eq!(*t.ttype(), TransactionType::Transfer);
    let t = Transaction::try_from(template_with(vec![attr("amount", "-1.0"), attr("kxfer", "7")])).unwrap();
    assert_eq!(*t.ttype(), TransactionType::Transfer);
}

#[test]
fn missing_category_is_none() {
    let t = Transaction::try_from(template_vec_ownedatt()).unwrap();
    assert_eq!(*t.category(), None);
}

#[test]
fn unreadable_category_is_none() {
    let t = Transaction::try_from(template_with(vec![attr("category", "abc")])).unwrap();
    assert_eq!(*t.category(), None);
    let t = Transaction::try_from(template_with(vec![attr("category", "12")])).unwrap();
    assert_eq!(*t.category(), Some(12));
}

#[test]
fn unreadable_required_fields_are_missing() {
    let r = Transaction::try_from(template_with(vec![attr("account", "x")]));
    assert_eq!(r, Err(TransactionError::MissingAccount));
    let r = Transaction::try_from(template_with(vec![attr("amount", "1.2.3")]));
    assert_eq!(r, Err(TransactionError::MissingAmount));
    let r = Transaction::try_from(template_with(vec![attr("date", "-5")]));
    assert_eq!(r, Err(TransactionError::MissingDate));
    let r = Transaction::try_from(template_with(vec![attr("paymode", "")]));
    assert_eq!(r, Err(TransactionError::MissingPayMode));
    let r = Transaction::try_from(template_with(vec![attr("payee", "p")]));
    assert_eq!(r, Err(TransactionError::MissingPayee));
}

#[test]
fn out_of_range_codes_are_invalid() {
    let r = Transaction::try_from(template_with(vec![attr("paymode", "11")]));
    assert_eq!(r, Err(TransactionError::InvalidPayMode));
    let r = Transaction::try_from(template_with(vec![attr("status", "5")]));
    assert_eq!(r, Err(TransactionError::InvalidStatus));
    let t = Transaction::try_from(template_with(vec![attr("status", "2"), attr("paymode", "10")])).unwrap();
    assert_eq!(*t.status(), TransactionStatus::Reconciled);
    assert_eq!(*t.pay_mode(), PayMode::DirectDebit);
    let t = Transaction::try_from(template_with(vec![attr("status", "zz")])).unwrap();
    assert_eq!(*t.status(), TransactionStatus::Unspecified);
}

#[test]
fn first_bad_attribute_wins() {
    let input = vec![attr("payee", "x"), attr("account", "y")];
    assert_eq!(Transaction::try_from(input), Err(TransactionError::MissingPayee));
}

#[test]
fn date_past_calendar_range_is_missing() {
    let r = Transaction::try_from(template_with(vec![attr("date", "95745765")]));
    assert_eq!(r, Err(TransactionError::MissingDate));
    let t = Transaction::try_from(template_with(vec![attr("date", "95745764")])).unwrap();
    assert_eq!(*t.date(), Date { year: 262142, month: 12, day: 31 });
}

#[test]
fn text_fields_and_tags() {
    let t = Transaction::try_from(template_with(vec![
        attr("wording", "lunch"),
        attr("info", ""),
        attr("tags", "food,work,,x"),
        attr("flags", "3"),
    ]))
    .unwrap();
    assert_eq!(*t.memo(), Some("lunch".to_string()));
    assert_eq!(*t.info(), None);
    assert_eq!(
        *t.tags(),
        Some(vec!["food".to_string(), "work".to_string(), "".to_string(), "x".to_string()])
    );
    assert_eq!(t.flags, Some(3));
    let t = Transaction::try_from(template_with(vec![attr("tags", "")])).unwrap();
    assert_eq!(*t.tags(), None);
}

#[test]
fn split_tags_keeps_order() {
    assert_eq!(split_tags("a,b"), vec!["a".to_string(), "b".to_string()]);
    assert_eq!(split_tags(""), vec!["".to_string()]);
    assert_eq!(split_tags(","), vec!["".to_string(), "".to_string()]);
}

#[test]
fn last_attribute_counts() {
    let t = Transaction::try_from(template_with(vec![attr("account", "9")])).unwrap();
    assert_eq!(t.account(), 9);
}
